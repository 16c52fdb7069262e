//! The settings window: which entries it selects for the stored settings, and
//! which settings it stores for what the user entered.

use vstd::prelude::*;
use crate::text::{i64_string, parse_i64, signed_decimal_text, signed_text_value, str_eq, strip_prefix, within_i64};
use crate::wizard::{label_cut, nic_name_from_label, opt_text};

verus! {

/// The characters of each string.
pub open spec fn option_texts(v: Seq<String>) -> Seq<Seq<char>> {
    v.map_values(|s: String| s@)
}

/// The label shown for each frames-per-packet setting other than a custom one.
pub open spec fn fpp_label_of(fpp: Seq<char>) -> Option<Seq<char>> {
    if fpp == "auto"@ {
        Some("Auto (negotiate)"@)
    } else if fpp == "min"@ {
        Some("Min Latency (1 packet)"@)
    } else if fpp == "max"@ {
        Some("Max Efficiency (64 packets)"@)
    } else {
        None
    }
}

/// The setting stored for a frames-per-packet label; `custom` is the text of
/// the custom field.
pub open spec fn fpp_value_of(label: Seq<char>, custom: Seq<char>) -> Seq<char> {
    if label == "Auto (negotiate)"@ {
        "auto"@
    } else if label == "Min Latency (1 packet)"@ {
        "min"@
    } else if label == "Max Efficiency (64 packets)"@ {
        "max"@
    } else if label == "Custom..."@ {
        custom
    } else {
        "auto"@
    }
}

/// The setting stored for the selected frames-per-packet label.
pub fn fpp_value(label: &str, custom: &str) -> (r: String)
    ensures
        r@ == fpp_value_of(label@, custom@),
{
    if str_eq(label, "Auto (negotiate)") {
        "auto".to_owned()
    } else if str_eq(label, "Min Latency (1 packet)") {
        "min".to_owned()
    } else if str_eq(label, "Max Efficiency (64 packets)") {
        "max".to_owned()
    } else if str_eq(label, "Custom...") {
        custom.to_owned()
    } else {
        "auto".to_owned()
    }
}

/// The label shown for a stored frames-per-packet setting; `None` for a custom one.
pub fn fpp_label(fpp: &str) -> (r: Option<&'static str>)
    ensures
        (match r {
            Some(l) => fpp_label_of(fpp@) == Some(l@),
            None => fpp_label_of(fpp@) is None,
        }),
{
    if str_eq(fpp, "auto") {
        Some("Auto (negotiate)")
    } else if str_eq(fpp, "min") {
        Some("Min Latency (1 packet)")
    } else if str_eq(fpp, "max") {
        Some("Max Efficiency (64 packets)")
    } else {
        None
    }
}

/// The first index whose entry satisfies `p`, or the number of entries.
pub open spec fn first_index(v: Seq<Seq<char>>, p: spec_fn(Seq<char>) -> bool) -> nat
    decreases v.len(),
{
    if v.len() == 0 {
        0
    } else if p(v[0]) {
        0
    } else {
        1 + first_index(v.drop_first(), p)
    }
}

/// `Some(i)` for the first index satisfying `p`, `None` when none does.
pub open spec fn found_index(v: Seq<Seq<char>>, p: spec_fn(Seq<char>) -> bool) -> Option<nat> {
    if first_index(v, p) < v.len() { Some(first_index(v, p)) } else { None }
}

proof fn lemma_first_index_bound(v: Seq<Seq<char>>, p: spec_fn(Seq<char>) -> bool)
    ensures
        first_index(v, p) <= v.len(),
        first_index(v, p) < v.len() ==> p(v[first_index(v, p) as int]),
        forall|j: int| 0 <= j < first_index(v, p) ==> !p(#[trigger] v[j]),
    decreases v.len(),
{
    if v.len() > 0 && !p(v[0]) {
        lemma_first_index_bound(v.drop_first(), p);
        assert forall|j: int| 0 <= j < first_index(v, p) implies !p(#[trigger] v[j]) by {
            if j > 0 {
                assert(v[j] == v.drop_first()[j - 1]);
            }
        }
    }
}

/// Entries equal to `value`.
pub open spec fn equals(value: Seq<char>) -> spec_fn(Seq<char>) -> bool {
    |s: Seq<char>| s == value
}

/// Entries that start with `prefix`.
pub open spec fn starts_with(prefix: Seq<char>) -> spec_fn(Seq<char>) -> bool {
    |s: Seq<char>| prefix.len() <= s.len() && s.take(prefix.len() as int) == prefix
}

/// The index of the first entry equal to `value`.
pub fn option_index(options: &Vec<String>, value: &str) -> (r: Option<usize>)
    ensures
        (match r {
            Some(i) => found_index(option_texts(options@), equals(value@)) == Some(i as nat),
            None => found_index(option_texts(options@), equals(value@)) is None,
        }),
{
    let ghost v = option_texts(options@);
    let mut i: usize = 0;
    assert(v.skip(0) =~= v);
    while i < options.len()
        invariant
            v == option_texts(options@),
            i <= options@.len(),
            first_index(v, equals(value@)) == i + first_index(v.skip(i as int), equals(value@)),
        decreases options@.len() - i,
    {
        assert(v.skip(i as int)[0] == options@[i as int]@);
        if str_eq(options[i].as_str(), value) {
            return Some(i);
        }
        assert(v.skip(i as int).drop_first() =~= v.skip(i + 1));
        i = i + 1;
    }
    assert(v.skip(i as int).len() == 0);
    None
}

/// The index of the first entry that starts with `prefix`.
pub fn prefix_index(options: &Vec<String>, prefix: &str) -> (r: Option<usize>)
    ensures
        (match r {
            Some(i) => found_index(option_texts(options@), starts_with(prefix@)) == Some(i as nat),
            None => found_index(option_texts(options@), starts_with(prefix@)) is None,
        }),
{
    let ghost v = option_texts(options@);
    let mut i: usize = 0;
    assert(v.skip(0) =~= v);
    while i < options.len()
        invariant
            v == option_texts(options@),
            i <= options@.len(),
            first_index(v, starts_with(prefix@)) == i + first_index(v.skip(i as int), starts_with(prefix@)),
        decreases options@.len() - i,
    {
        assert(v.skip(i as int)[0] == options@[i as int]@);
        let m = strip_prefix(options[i].as_str(), prefix);
        if m.is_some() {
            assert(options@[i as int]@.subrange(0, prefix@.len() as int) =~= options@[i as int]@.take(prefix@.len() as int));
            return Some(i);
        }
        proof {
            if prefix@.len() <= options@[i as int]@.len() {
                assert(options@[i as int]@.subrange(0, prefix@.len() as int) =~= options@[i as int]@.take(prefix@.len() as int));
            }
        }
        assert(v.skip(i as int).drop_first() =~= v.skip(i + 1));
        i = i + 1;
    }
    assert(v.skip(i as int).len() == 0);
    None
}

/// The settings as stored: each one present when the file gives it with the
/// right type.
#[derive(Debug, Clone)]
pub struct StoredSettings {
    pub device_name: Option<String>,
    pub sample_rate: Option<i64>,
    pub channels: Option<i64>,
    pub latency_ms: Option<i64>,
    pub network_interface: Option<String>,
    pub fpp: Option<String>,
}

/// The entries of the settings window's lists.
pub struct FormChoices {
    pub sample_rates: Vec<String>,
    pub interfaces: Vec<String>,
    pub fpp_modes: Vec<String>,
}

/// What loading the stored settings sets in the window: each field that
/// changes, and the entry selected in each list.
#[derive(Debug, Clone)]
pub struct FormUpdate {
    pub device_name: Option<String>,
    pub sample_rate_selection: Option<usize>,
    pub channels_text: Option<String>,
    pub latency_text: Option<String>,
    pub interface_selection: Option<usize>,
    pub fpp_selection: Option<usize>,
    /// The custom frames-per-packet value, shown with its field.
    pub custom_fpp: Option<String>,
}

/// The view of an optional number as its text.
pub open spec fn opt_number_text(x: Option<i64>) -> Option<Seq<char>> {
    match x {
        Some(v) => Some(signed_decimal_text(v as int)),
        None => None,
    }
}

/// The view of an optional index.
pub open spec fn opt_index(x: Option<usize>) -> Option<nat> {
    match x {
        Some(v) => Some(v as nat),
        None => None,
    }
}

/// What loading `s` sets, with the lists `c`.
pub open spec fn form_update_spec(s: StoredSettings, c: (Seq<Seq<char>>, Seq<Seq<char>>, Seq<Seq<char>>), u: FormUpdate) -> bool {
    &&& opt_text(u.device_name) == opt_text(s.device_name)
    &&& opt_index(u.sample_rate_selection) == (match s.sample_rate {
        Some(r) => found_index(c.0, equals(signed_decimal_text(r as int))),
        None => None,
    })
    &&& opt_text(u.channels_text) == opt_number_text(s.channels)
    &&& opt_text(u.latency_text) == opt_number_text(s.latency_ms)
    &&& opt_index(u.interface_selection) == (match s.network_interface {
        Some(n) => found_index(c.1, starts_with(n@)),
        None => None,
    })
    &&& opt_index(u.fpp_selection) == (match s.fpp {
        Some(f) => match fpp_label_of(f@) {
            Some(l) => found_index(c.2, equals(l)),
            None => found_index(c.2, equals("Custom..."@)),
        },
        None => None,
    })
    &&& opt_text(u.custom_fpp) == (match s.fpp {
        Some(f) => if fpp_label_of(f@) is None { Some(f@) } else { None },
        None => None,
    })
}

/// The lists of `c`, as text.
pub open spec fn choices_view(c: FormChoices) -> (Seq<Seq<char>>, Seq<Seq<char>>, Seq<Seq<char>>) {
    (option_texts(c.sample_rates@), option_texts(c.interfaces@), option_texts(c.fpp_modes@))
}

/// What loading the stored settings sets in the window.
pub fn load_form(s: &StoredSettings, c: &FormChoices) -> (u: FormUpdate)
    ensures
        form_update_spec(*s, choices_view(*c), u),
{
    let device_name = match &s.device_name {
        Some(n) => Some(n.clone()),
        None => None,
    };
    let sample_rate_selection = match s.sample_rate {
        Some(r) => {
            let t = i64_string(r);
            option_index(&c.sample_rates, t.as_str())
        },
        None => None,
    };
    let channels_text = match s.channels {
        Some(v) => Some(i64_string(v)),
        None => None,
    };
    let latency_text = match s.latency_ms {
        Some(v) => Some(i64_string(v)),
        None => None,
    };
    let interface_selection = match &s.network_interface {
        Some(n) => prefix_index(&c.interfaces, n.as_str()),
        None => None,
    };
    let (fpp_selection, custom_fpp) = match &s.fpp {
        Some(f) => match fpp_label(f.as_str()) {
            Some(l) => (option_index(&c.fpp_modes, l), None),
            None => (option_index(&c.fpp_modes, "Custom..."), Some(f.clone())),
        },
        None => (None, None),
    };
    FormUpdate {
        device_name,
        sample_rate_selection,
        channels_text,
        latency_text,
        interface_selection,
        fpp_selection,
        custom_fpp,
    }
}

/// A value to store.
#[derive(Debug, Clone)]
pub enum SettingValue {
    Text(String),
    Integer(i64),
}

/// What the window holds when the user saves: the text fields, and the label
/// selected in each list.
pub struct FormInput {
    pub device_name: String,
    pub sample_rate_label: Option<String>,
    pub channels_text: String,
    pub latency_text: String,
    pub interface_label: Option<String>,
    pub fpp_label: Option<String>,
    pub custom_fpp: String,
}

/// The view of a value to store.
pub open spec fn value_view(v: SettingValue) -> (bool, Seq<char>, int) {
    match v {
        SettingValue::Text(t) => (true, t@, 0),
        SettingValue::Integer(i) => (false, Seq::empty(), i as int),
    }
}

/// A text value.
pub open spec fn text_value(t: Seq<char>) -> (bool, Seq<char>, int) {
    (true, t, 0)
}

/// An integer value.
pub open spec fn int_value(i: int) -> (bool, Seq<char>, int) {
    (false, Seq::empty(), i)
}

/// The entry stored for a number field, when its text is a number.
pub open spec fn number_entry(key: Seq<char>, text: Seq<char>) -> Seq<(Seq<char>, (bool, Seq<char>, int))> {
    match within_i64(signed_text_value(text)) {
        Some(v) => seq![(key, int_value(v))],
        None => Seq::empty(),
    }
}

/// The settings stored for what the window holds, in order: the name always,
/// each number whose text reads as one, the interface named by the selected
/// label, the frames per packet of the selected mode.
pub open spec fn saved_entries(f: FormInput) -> Seq<(Seq<char>, (bool, Seq<char>, int))> {
    seq![("device_name"@, text_value(f.device_name@))]
        + (match f.sample_rate_label {
            Some(l) => number_entry("sample_rate"@, l@),
            None => Seq::empty(),
        })
        + number_entry("channels"@, f.channels_text@)
        + number_entry("latency_ms"@, f.latency_text@)
        + (match f.interface_label {
            Some(l) => seq![("network_interface"@, text_value(l@.take(label_cut(l@) as int)))],
            None => Seq::empty(),
        })
        + (match f.fpp_label {
            Some(l) => seq![("fpp"@, text_value(fpp_value_of(l@, f.custom_fpp@)))],
            None => Seq::empty(),
        })
}

/// The views of stored entries.
pub open spec fn entries_view(v: Seq<(String, SettingValue)>) -> Seq<(Seq<char>, (bool, Seq<char>, int))> {
    v.map_values(|e: (String, SettingValue)| (e.0@, value_view(e.1)))
}

/// Append the entry of a number field when its text is a number.
fn push_number_entry(out: &mut Vec<(String, SettingValue)>, key: &str, text: &str)
    ensures
        entries_view(final(out)@) == entries_view(old(out)@) + number_entry(key@, text@),
{
    match parse_i64(text) {
        Some(v) => {
            out.push((key.to_owned(), SettingValue::Integer(v)));
        },
        None => {},
    }
    assert(entries_view(out@) =~= entries_view(old(out)@) + number_entry(key@, text@));
}

/// The settings to store for what the window holds.
pub fn save_form(f: &FormInput) -> (r: Vec<(String, SettingValue)>)
    ensures
        entries_view(r@) == saved_entries(*f),
{
    let mut r: Vec<(String, SettingValue)> = Vec::new();
    r.push(("device_name".to_owned(), SettingValue::Text(f.device_name.clone())));
    assert(entries_view(r@) =~= seq![("device_name"@, text_value(f.device_name@))]);
    match &f.sample_rate_label {
        Some(l) => push_number_entry(&mut r, "sample_rate", l.as_str()),
        None => {},
    }
    push_number_entry(&mut r, "channels", f.channels_text.as_str());
    push_number_entry(&mut r, "latency_ms", f.latency_text.as_str());
    match &f.interface_label {
        Some(l) => {
            let ghost before = r@;
            r.push(("network_interface".to_owned(), SettingValue::Text(nic_name_from_label(l.as_str()))));
            assert(entries_view(r@) =~= entries_view(before) + seq![(
                "network_interface"@,
                text_value(l@.take(label_cut(l@) as int)),
            )]);
        },
        None => {},
    }
    match &f.fpp_label {
        Some(l) => {
            let ghost before = r@;
            r.push(("fpp".to_owned(), SettingValue::Text(fpp_value(l.as_str(), f.custom_fpp.as_str()))));
            assert(entries_view(r@) =~= entries_view(before) + seq![(
                "fpp"@,
                text_value(fpp_value_of(l@, f.custom_fpp@)),
            )]);
        },
        None => {},
    }
    assert(entries_view(r@) =~= saved_entries(*f));
    r
}

/// Saving the frames-per-packet mode that loading selected gives back the
/// stored setting: a named mode through its label, a custom value through the
/// custom field.
pub proof fn lemma_fpp_roundtrip(fpp: Seq<char>)
    ensures
        (match fpp_label_of(fpp) {
            Some(l) => fpp_value_of(l, Seq::empty()) == fpp,
            None => fpp_value_of("Custom..."@, fpp) == fpp,
        }),
{
    reveal_strlit("auto");
    reveal_strlit("min");
    reveal_strlit("max");
    reveal_strlit("Auto (negotiate)");
    reveal_strlit("Min Latency (1 packet)");
    reveal_strlit("Max Efficiency (64 packets)");
    reveal_strlit("Custom...");
    assert("Custom..."@.len() == 9);
    assert("Auto (negotiate)"@.len() == 16);
    assert("Min Latency (1 packet)"@.len() == 22);
    assert("Max Efficiency (64 packets)"@.len() == 27);
    assert("Min Latency (1 packet)"@ != "Auto (negotiate)"@);
    assert("Max Efficiency (64 packets)"@ != "Auto (negotiate)"@);
    assert("Max Efficiency (64 packets)"@ != "Min Latency (1 packet)"@);
    assert("Custom..."@ != "Auto (negotiate)"@);
    assert("Custom..."@ != "Min Latency (1 packet)"@);
    assert("Custom..."@ != "Max Efficiency (64 packets)"@);
}

/// Saving the sample rate that loading selected gives back the stored rate.
pub proof fn lemma_sample_rate_roundtrip(rate: i64, options: Seq<Seq<char>>, i: nat)
    requires
        found_index(options, equals(signed_decimal_text(rate as int))) == Some(i),
    ensures
        within_i64(signed_text_value(options[i as int])) == Some(rate as int),
{
    lemma_first_index_bound(options, equals(signed_decimal_text(rate as int)));
    crate::text::lemma_signed_decimal_roundtrip(rate as int);
}

/// What the settings window reports once the user asked to save: on success a
/// reload of the service and an information message; on failure an error
/// message with the reason, and no reload.
pub struct SaveReport {
    pub trigger_reload: bool,
    pub is_error: bool,
    pub message: String,
}

/// The report for the outcome of writing the settings.
pub fn save_report(outcome: &Result<(), String>) -> (r: SaveReport)
    ensures
        (match outcome {
            Ok(_) => r.trigger_reload && !r.is_error && r.message@ == "Configuration saved. Reload triggered."@,
            Err(e) => !r.trigger_reload && r.is_error && r.message@ == "Failed to save config: "@ + e@,
        }),
{
    match outcome {
        Ok(_) => SaveReport {
            trigger_reload: true,
            is_error: false,
            message: "Configuration saved. Reload triggered.".to_owned(),
        },
        Err(e) => {
            let mut m = "Failed to save config: ".to_owned();
            m.append(e.as_str());
            SaveReport { trigger_reload: false, is_error: true, message: m }
        },
    }
}

} // verus!
