use vstd::prelude::*;
use crate::text::{chars_of, str_eq, strip_prefix, to_ascii_uppercase, ascii_upper};

verus! {

/// A key/value entry as text.
pub type EntryView = (Seq<char>, Seq<char>);

/// The value that the entries give `key`: that of the last entry with this key.
pub open spec fn lookup(entries: Seq<EntryView>, key: Seq<char>) -> Option<Seq<char>>
    decreases entries.len(),
{
    if entries.len() == 0 {
        None
    } else if entries.last().0 == key {
        Some(entries.last().1)
    } else {
        lookup(entries.drop_last(), key)
    }
}

/// `s` with ASCII letters upper-cased.
pub open spec fn upper_text(s: Seq<char>) -> Seq<char> {
    s.map_values(|c: char| ascii_upper(c))
}

/// `a` comes before `b` in the order of `String`: the first character in which
/// they differ decides, by its code (which orders as UTF-8 bytes do), and a
/// proper prefix comes first.
pub open spec fn text_less(a: Seq<char>, b: Seq<char>) -> bool
    decreases a.len(),
{
    if a.len() == 0 {
        b.len() > 0
    } else if b.len() == 0 {
        false
    } else if a[0] != b[0] {
        (a[0] as u32) < (b[0] as u32)
    } else {
        text_less(a.drop_first(), b.drop_first())
    }
}

/// Entry `i` is the last one with its key, so the one the map reads.
pub open spec fn is_current(entries: Seq<EntryView>, i: int) -> bool {
    &&& 0 <= i < entries.len()
    &&& forall|j: int| i < j < entries.len() ==> entries[j].0 != entries[i].0
}

/// Entry `i` is current, and of the current keys that upper-case alike its key
/// comes last in the order of `String`.
pub open spec fn is_upper_winner(entries: Seq<EntryView>, i: int) -> bool {
    &&& is_current(entries, i)
    &&& forall|j: int|
        #![trigger is_current(entries, j)]
        is_current(entries, j) && upper_text(entries[j].0) == upper_text(entries[i].0)
            ==> !text_less(entries[i].0, entries[j].0)
}

/// The winning entries among the first `n`, keys upper-cased, in order.
pub open spec fn upper_winners(entries: Seq<EntryView>, n: int) -> Seq<EntryView>
    decreases n,
{
    if n <= 0 {
        Seq::empty()
    } else {
        let prev = upper_winners(entries, n - 1);
        if is_upper_winner(entries, n - 1) {
            prev.push((upper_text(entries[n - 1].0), entries[n - 1].1))
        } else {
            prev
        }
    }
}

/// The entries with their keys upper-cased, one per upper-cased key: that of
/// the current key that comes last in the order of `String`, as when the
/// entries, taken as a sorted map, are collected into a new one under
/// upper-cased keys.
pub open spec fn upper_keys(entries: Seq<EntryView>) -> Seq<EntryView> {
    upper_winners(entries, entries.len() as int)
}

/// Two different texts are ordered one way or the other.
proof fn lemma_text_less_total(a: Seq<char>, b: Seq<char>)
    requires
        a != b,
    ensures
        text_less(a, b) || text_less(b, a),
    decreases a.len(),
{
    if a.len() > 0 && b.len() > 0 {
        if a[0] == b[0] {
            if a.drop_first() == b.drop_first() {
                assert(a.len() == a.drop_first().len() + 1);
                assert(b.len() == b.drop_first().len() + 1);
                assert forall|k: int| 0 <= k < a.len() implies a[k] == b[k] by {
                    if k > 0 {
                        assert(a[k] == a.drop_first()[k - 1]);
                        assert(b[k] == b.drop_first()[k - 1]);
                    }
                }
                assert(a =~= b);
            }
            lemma_text_less_total(a.drop_first(), b.drop_first());
        } else {
            vstd::utf8::char_u32_cast(a[0], a[0] as u32);
            vstd::utf8::char_u32_cast(b[0], b[0] as u32);
            assert((a[0] as u32) != (b[0] as u32));
        }
    } else if a.len() == 0 && b.len() == 0 {
        assert(a =~= b);
    }
}

/// `text_less` is the strict order: never both ways.
proof fn lemma_text_less_asymmetric(a: Seq<char>, b: Seq<char>)
    ensures
        !(text_less(a, b) && text_less(b, a)),
    decreases a.len(),
{
    if a.len() > 0 && b.len() > 0 && a[0] == b[0] {
        lemma_text_less_asymmetric(a.drop_first(), b.drop_first());
    }
}

/// Two winning entries never upper-case alike.
proof fn lemma_upper_winner_unique(entries: Seq<EntryView>, i: int, j: int)
    requires
        is_upper_winner(entries, i),
        is_upper_winner(entries, j),
        upper_text(entries[i].0) == upper_text(entries[j].0),
    ensures
        i == j,
{
    if i != j {
        if entries[i].0 == entries[j].0 {
            if i < j {
                assert(!is_current(entries, i));
            } else {
                assert(!is_current(entries, j));
            }
        } else {
            lemma_text_less_total(entries[i].0, entries[j].0);
            assert(is_current(entries, j));
            assert(is_current(entries, i));
        }
    }
}

/// What the upper-cased entries read: for each winning entry, its value under
/// its upper-cased key; nothing under a key to which no key upper-cases.
pub proof fn lemma_upper_keys_lookup(entries: Seq<EntryView>)
    ensures
        forall|i: int| #[trigger] is_upper_winner(entries, i)
            ==> lookup(upper_keys(entries), upper_text(entries[i].0)) == Some(entries[i].1),
        forall|key: Seq<char>|
            (forall|i: int| 0 <= i < entries.len() ==> upper_text(#[trigger] entries[i].0) != key)
                ==> #[trigger] lookup(upper_keys(entries), key) is None,
{
    assert forall|i: int| #[trigger] is_upper_winner(entries, i)
        implies lookup(upper_keys(entries), upper_text(entries[i].0)) == Some(entries[i].1) by {
        lemma_upper_winners_lookup(entries, entries.len() as int, i);
    }
    assert forall|key: Seq<char>|
        (forall|i: int| 0 <= i < entries.len() ==> upper_text(#[trigger] entries[i].0) != key)
            implies #[trigger] lookup(upper_keys(entries), key) is None by {
        lemma_upper_winners_absent(entries, entries.len() as int, key);
    }
}

proof fn lemma_upper_winners_lookup(entries: Seq<EntryView>, n: int, i: int)
    requires
        is_upper_winner(entries, i),
        i < n <= entries.len(),
    ensures
        lookup(upper_winners(entries, n), upper_text(entries[i].0)) == Some(entries[i].1),
    decreases n,
{
    let prev = upper_winners(entries, n - 1);
    let top = (upper_text(entries[n - 1].0), entries[n - 1].1);
    assert(prev.push(top).drop_last() =~= prev);
    if n - 1 != i {
        lemma_upper_winners_lookup(entries, n - 1, i);
        if is_upper_winner(entries, n - 1) && upper_text(entries[n - 1].0) == upper_text(entries[i].0) {
            lemma_upper_winner_unique(entries, i, n - 1);
        }
    }
}

proof fn lemma_upper_winners_absent(entries: Seq<EntryView>, n: int, key: Seq<char>)
    requires
        n <= entries.len(),
        forall|i: int| 0 <= i < entries.len() ==> upper_text(#[trigger] entries[i].0) != key,
    ensures
        lookup(upper_winners(entries, n), key) is None,
    decreases n,
{
    if n > 0 {
        lemma_upper_winners_absent(entries, n - 1, key);
        assert(upper_text(entries[n - 1].0) != key);
        let prev = upper_winners(entries, n - 1);
        let top = (upper_text(entries[n - 1].0), entries[n - 1].1);
        assert(prev.push(top).drop_last() =~= prev);
    }
}

/// The prefix that marks environment variables meant for the node.
pub open spec fn env_prefix() -> Seq<char> {
    seq!['I', 'N', 'F', 'E', 'R', 'N', 'O', '_']
}

/// The setting key that an environment variable names, when it has the prefix.
pub open spec fn env_setting_key(name: Seq<char>) -> Option<Seq<char>> {
    if env_prefix().len() <= name.len() && name.take(env_prefix().len() as int) == env_prefix() {
        Some(upper_text(name.skip(env_prefix().len() as int)))
    } else {
        None
    }
}

/// The entries after adding, in order, each prefixed environment variable whose
/// key is not already set.
pub open spec fn merge_env(entries: Seq<EntryView>, env: Seq<EntryView>) -> Seq<EntryView>
    decreases env.len(),
{
    if env.len() == 0 {
        entries
    } else {
        let next = match env_setting_key(env[0].0) {
            Some(k) => if lookup(entries, k) is None { entries.push((k, env[0].1)) } else { entries },
            None => entries,
        };
        merge_env(next, env.drop_first())
    }
}

/// A setting reads back as last written, and writing one key leaves the
/// others as they were.
pub proof fn lemma_lookup_after_insert(entries: Seq<EntryView>, key: Seq<char>, value: Seq<char>, other: Seq<char>)
    ensures
        lookup(entries.push((key, value)), key) == Some(value),
        other != key ==> lookup(entries.push((key, value)), other) == lookup(entries, other),
{
    assert(entries.push((key, value)).drop_last() =~= entries);
}

/// Environment variables only fill in settings that are not set: a setting
/// present before the merge keeps its value.
pub proof fn lemma_merge_keeps_settings(entries: Seq<EntryView>, env: Seq<EntryView>, key: Seq<char>)
    requires
        lookup(entries, key) is Some,
    ensures
        lookup(merge_env(entries, env), key) == lookup(entries, key),
    decreases env.len(),
{
    if env.len() > 0 {
        match env_setting_key(env[0].0) {
            Some(k) => {
                if lookup(entries, k) is None {
                    lemma_lookup_after_insert(entries, k, env[0].1, key);
                    lemma_merge_keeps_settings(entries.push((k, env[0].1)), env.drop_first(), key);
                } else {
                    lemma_merge_keeps_settings(entries, env.drop_first(), key);
                }
            },
            None => lemma_merge_keeps_settings(entries, env.drop_first(), key),
        }
    }
}

/// A list of string pairs as text.
pub open spec fn pairs_view(pairs: Seq<(String, String)>) -> Seq<EntryView> {
    pairs.map_values(|e: (String, String)| (e.0@, e.1@))
}

/// Whether `a` comes before `b` in the order of `String`.
fn text_lt(a: &str, b: &str) -> (r: bool)
    ensures
        r == text_less(a@, b@),
{
    let ca = chars_of(a);
    let cb = chars_of(b);
    let mut i: usize = 0;
    assert(ca@.skip(0) =~= ca@);
    assert(cb@.skip(0) =~= cb@);
    while i < ca.len() && i < cb.len()
        invariant
            ca@ == a@,
            cb@ == b@,
            i <= ca@.len(),
            i <= cb@.len(),
            text_less(a@, b@) == text_less(ca@.skip(i as int), cb@.skip(i as int)),
        decreases ca@.len() - i,
    {
        if ca[i] != cb[i] {
            return (ca[i] as u32) < (cb[i] as u32);
        }
        assert(ca@.skip(i as int).drop_first() =~= ca@.skip(i + 1));
        assert(cb@.skip(i as int).drop_first() =~= cb@.skip(i + 1));
        i = i + 1;
    }
    assert(ca@.skip(i as int).len() == ca@.len() - i);
    assert(cb@.skip(i as int).len() == cb@.len() - i);
    i == ca.len() && i < cb.len()
}

/// String settings by key, as an ordered list of entries in which a later entry
/// for a key overrides an earlier one.
pub struct ConfigMap {
    entries: Vec<(String, String)>,
}

impl ConfigMap {
    /// The entries as text, in order.
    pub closed spec fn entries_view(&self) -> Seq<EntryView> {
        self.entries@.map_values(|e: (String, String)| (e.0@, e.1@))
    }

    /// The value that the map gives `key`.
    pub open spec fn value_of(&self, key: Seq<char>) -> Option<Seq<char>> {
        lookup(self.entries_view(), key)
    }

    /// An empty map.
    pub fn new() -> (m: ConfigMap)
        ensures
            m.entries_view() == Seq::<EntryView>::empty(),
    {
        let m = ConfigMap { entries: Vec::new() };
        assert(m.entries_view() =~= Seq::<EntryView>::empty());
        m
    }

    /// The number of entries held.
    pub fn len(&self) -> (n: usize)
        ensures
            n == self.entries_view().len(),
    {
        self.entries.len()
    }

    /// The entry at position `i`.
    pub fn entry(&self, i: usize) -> (e: (&String, &String))
        requires
            i < self.entries_view().len(),
        ensures
            (e.0@, e.1@) == self.entries_view()[i as int],
    {
        (&self.entries[i].0, &self.entries[i].1)
    }

    /// Set `key` to `value`, overriding any earlier value.
    pub fn insert(&mut self, key: String, value: String)
        ensures
            final(self).entries_view() == old(self).entries_view().push((key@, value@)),
    {
        self.entries.push((key, value));
        assert(self.entries_view() =~= old(self).entries_view().push((key@, value@)));
    }

    /// The value of `key`, if set.
    pub fn get(&self, key: &str) -> (r: Option<&String>)
        ensures
            (r matches Some(v) ==> self.value_of(key@) == Some(v@)),
            (r is None ==> self.value_of(key@) is None),
    {
        let mut i = self.entries.len();
        assert(self.entries_view().take(i as int) =~= self.entries_view());
        while i > 0
            invariant
                i <= self.entries@.len(),
                self.value_of(key@) == lookup(self.entries_view().take(i as int), key@),
            decreases i,
        {
            let ghost prefix = self.entries_view().take(i as int);
            if str_eq(self.entries[i - 1].0.as_str(), key) {
                return Some(&self.entries[i - 1].1);
            }
            assert(prefix.drop_last() =~= self.entries_view().take(i - 1));
            i = i - 1;
        }
        None
    }

    /// Whether entry `i` is the last one with its key.
    fn is_current_at(&self, i: usize) -> (r: bool)
        requires
            i < self.entries_view().len(),
        ensures
            r == is_current(self.entries_view(), i as int),
    {
        let n = self.entries.len();
        let mut j: usize = i + 1;
        while j < n
            invariant
                n == self.entries_view().len(),
                i < j <= n,
                forall|l: int| i < l < j ==> self.entries_view()[l].0 != self.entries_view()[i as int].0,
            decreases n - j,
        {
            if str_eq(self.entries[j].0.as_str(), self.entries[i].0.as_str()) {
                assert(self.entries_view()[j as int].0 == self.entries_view()[i as int].0);
                return false;
            }
            j = j + 1;
        }
        true
    }

    /// Whether the current entry `i` wins among the current keys that
    /// upper-case alike, given which entries are current and the upper-cased keys.
    fn wins_at(&self, i: usize, current: &Vec<bool>, uppers: &Vec<String>) -> (r: bool)
        requires
            i < self.entries_view().len(),
            current@.len() == self.entries_view().len(),
            uppers@.len() == self.entries_view().len(),
            forall|l: int| 0 <= l < current@.len() ==> current@[l] == is_current(self.entries_view(), l),
            forall|l: int| 0 <= l < uppers@.len() ==> uppers@[l]@ == upper_text(self.entries_view()[l].0),
            is_current(self.entries_view(), i as int),
        ensures
            r == is_upper_winner(self.entries_view(), i as int),
    {
        let ghost e = self.entries_view();
        let n = self.entries.len();
        let mut j: usize = 0;
        while j < n
            invariant
                n == e.len(),
                e == self.entries_view(),
                j <= n,
                i < n,
                current@.len() == n,
                uppers@.len() == n,
                forall|l: int| 0 <= l < current@.len() ==> current@[l] == is_current(e, l),
                forall|l: int| 0 <= l < uppers@.len() ==> uppers@[l]@ == upper_text(e[l].0),
                forall|l: int|
                    #![trigger is_current(e, l)]
                    0 <= l < j && is_current(e, l) && upper_text(e[l].0) == upper_text(e[i as int].0)
                        ==> !text_less(e[i as int].0, e[l].0),
            decreases n - j,
        {
            if current[j] && str_eq(uppers[j].as_str(), uppers[i].as_str())
                && text_lt(self.entries[i].0.as_str(), self.entries[j].0.as_str()) {
                assert(is_current(e, j as int));
                return false;
            }
            j = j + 1;
        }
        true
    }

    /// A copy with every key upper-cased (ASCII letters only), one entry per
    /// upper-cased key: when several current keys upper-case alike, the value of
    /// the one that comes last in the order of `String` is kept, as when the
    /// entries, taken as a sorted map, are collected into a new one under
    /// upper-cased keys.
    pub fn with_upper_keys(&self) -> (m: ConfigMap)
        ensures
            m.entries_view() == upper_keys(self.entries_view()),
    {
        let ghost e = self.entries_view();
        let n = self.entries.len();
        let mut current: Vec<bool> = Vec::new();
        let mut uppers: Vec<String> = Vec::new();
        let mut i: usize = 0;
        while i < n
            invariant
                n == e.len(),
                e == self.entries_view(),
                i <= n,
                current@.len() == i,
                uppers@.len() == i,
                forall|l: int| 0 <= l < i ==> current@[l] == is_current(e, l),
                forall|l: int| 0 <= l < i ==> uppers@[l]@ == upper_text(e[l].0),
            decreases n - i,
        {
            current.push(self.is_current_at(i));
            uppers.push(to_ascii_uppercase(self.entries[i].0.as_str()));
            i = i + 1;
        }
        let mut m = ConfigMap::new();
        i = 0;
        while i < n
            invariant
                n == e.len(),
                e == self.entries_view(),
                i <= n,
                current@.len() == n,
                uppers@.len() == n,
                forall|l: int| 0 <= l < n ==> current@[l] == is_current(e, l),
                forall|l: int| 0 <= l < n ==> uppers@[l]@ == upper_text(e[l].0),
                m.entries_view() == upper_winners(e, i as int),
            decreases n - i,
        {
            if current[i] && self.wins_at(i, &current, &uppers) {
                m.insert(uppers[i].clone(), self.entries[i].1.clone());
            }
            i = i + 1;
        }
        m
    }

    /// Add each environment variable named `INFERNO_<KEY>` as setting `<KEY>`
    /// (upper-cased), unless that setting is already present.
    pub fn merge_env_vars(&mut self, env: &Vec<(String, String)>)
        ensures
            final(self).entries_view() == merge_env(old(self).entries_view(), pairs_view(env@)),
    {
        let ghost env_view = pairs_view(env@);
        let n = env.len();
        let mut i: usize = 0;
        assert(env_view.skip(0) =~= env_view);
        while i < n
            invariant
                n == env@.len(),
                i <= n,
                env_view == pairs_view(env@),
                merge_env(old(self).entries_view(), env_view) == merge_env(
                    self.entries_view(),
                    env_view.skip(i as int),
                ),
            decreases n - i,
        {
            let ghost before = self.entries_view();
            assert(env_view.skip(i as int).drop_first() =~= env_view.skip(i + 1));
            assert(env_view.skip(i as int)[0] == (env@[i as int].0@, env@[i as int].1@));
            match strip_prefix(env[i].0.as_str(), "INFERNO_") {
                Some(rest) => {
                    proof {
                        reveal_strlit("INFERNO_");
                        assert("INFERNO_"@ =~= env_prefix());
                    }
                    let key = to_ascii_uppercase(rest);
                    if self.get(key.as_str()).is_none() {
                        self.insert(key, env[i].1.clone());
                    }
                }
                None => {
                    proof {
                        reveal_strlit("INFERNO_");
                        assert("INFERNO_"@ =~= env_prefix());
                    }
                }
            }
            i = i + 1;
        }
        assert(env_view.skip(n as int) =~= Seq::<EntryView>::empty());
    }
}

} // verus!
