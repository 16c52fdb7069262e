//! The service's control channel: what the tray asks, what the service answers,
//! and how the service reacts to the Windows service manager.

use vstd::prelude::*;

verus! {

/// The named pipe between the service and the tray.
pub const PIPE_NAME: &'static str = "\\\\.\\pipe\\inferno";
/// The Windows service name.
pub const SERVICE_NAME: &'static str = "InfernoAoIP";
/// The peak level reported for each transmit channel, in dB.
pub const REPORTED_PEAK_DB: i32 = -60;

/// A request from the tray.
#[derive(Debug, Clone, Copy, PartialEq, Eq)]
pub enum IpcRequest {
    GetStatus,
    GetFlows,
    ReloadConfig,
    Shutdown,
}

/// The status the service reports.
#[derive(Debug, Clone)]
pub struct StatusReport {
    pub tx_active: bool,
    pub rx_active: bool,
    pub tx_channels: u32,
    pub rx_channels: u32,
    pub sample_rate: u32,
    pub clock_mode: String,
    /// Per-channel peak levels in dB.
    pub tx_peak_db: Vec<i32>,
    pub uptime_secs: u64,
}

/// A message the service received, as far as it matters to the answer.
#[derive(Debug, Clone, Copy, PartialEq, Eq)]
pub enum Incoming {
    GetStatus,
    ReloadConfig,
    Shutdown,
    /// A message of another kind.
    Other,
}

/// What the service does with a message.
#[derive(Debug, Clone)]
pub enum ServerAction {
    /// Answer with this status.
    Reply(StatusReport),
    /// Note that a shutdown was asked for.
    NoteShutdown,
    /// Note that a reload was asked for.
    NoteReload,
    /// Note an unexpected message.
    Ignore,
}

/// The status the service reports: both directions active, the configured
/// channels and rate, the clock it runs on, the fixed peak level per transmit
/// channel, and the uptime.
pub open spec fn is_status_report(r: StatusReport, tx_channels: u32, rx_channels: u32, sample_rate: u32, uptime_secs: u64) -> bool {
    &&& r.tx_active
    &&& r.rx_active
    &&& r.tx_channels == tx_channels
    &&& r.rx_channels == rx_channels
    &&& r.sample_rate == sample_rate
    &&& r.clock_mode@ == "SafeClock"@
    &&& r.tx_peak_db@ == Seq::new(tx_channels as nat, |i: int| REPORTED_PEAK_DB)
    &&& r.uptime_secs == uptime_secs
}

/// What the service does with `msg`, `uptime_secs` after it started.
pub fn server_action(msg: Incoming, tx_channels: u32, rx_channels: u32, sample_rate: u32, uptime_secs: u64) -> (a: ServerAction)
    ensures
        (msg == Incoming::GetStatus) <==> a is Reply,
        (a matches ServerAction::Reply(r) ==> is_status_report(r, tx_channels, rx_channels, sample_rate, uptime_secs)),
        (msg == Incoming::Shutdown) <==> a is NoteShutdown,
        (msg == Incoming::ReloadConfig) <==> a is NoteReload,
        (msg == Incoming::Other) <==> a is Ignore,
{
    match msg {
        Incoming::GetStatus => {
            let mut peaks: Vec<i32> = Vec::new();
            let mut i: u32 = 0;
            while i < tx_channels
                invariant
                    i <= tx_channels,
                    peaks@ == Seq::new(i as nat, |k: int| REPORTED_PEAK_DB),
                decreases tx_channels - i,
            {
                peaks.push(REPORTED_PEAK_DB);
                i = i + 1;
                assert(peaks@ =~= Seq::new(i as nat, |k: int| REPORTED_PEAK_DB));
            }
            ServerAction::Reply(StatusReport {
                tx_active: true,
                rx_active: true,
                tx_channels,
                rx_channels,
                sample_rate,
                clock_mode: "SafeClock".to_owned(),
                tx_peak_db: peaks,
                uptime_secs,
            })
        },
        Incoming::Shutdown => ServerAction::NoteShutdown,
        Incoming::ReloadConfig => ServerAction::NoteReload,
        Incoming::Other => ServerAction::Ignore,
    }
}

/// What the tray sends in one poll, given the commands the user left: a reload
/// request first when asked for, then either the shutdown request alone, or the
/// status request after which it waits for the answer.
pub open spec fn poll_requests_spec(reload: bool, shutdown: bool) -> (Seq<IpcRequest>, bool) {
    let first: Seq<IpcRequest> = if reload { seq![IpcRequest::ReloadConfig] } else { Seq::empty() };
    if shutdown {
        (first.push(IpcRequest::Shutdown), false)
    } else {
        (first.push(IpcRequest::GetStatus), true)
    }
}

/// What the tray sends in one poll, and whether it then waits for a status.
pub fn poll_requests(reload: bool, shutdown: bool) -> (r: (Vec<IpcRequest>, bool))
    ensures
        r.0@ == poll_requests_spec(reload, shutdown).0,
        r.1 == poll_requests_spec(reload, shutdown).1,
{
    let mut v: Vec<IpcRequest> = Vec::new();
    if reload {
        v.push(IpcRequest::ReloadConfig);
    }
    if shutdown {
        v.push(IpcRequest::Shutdown);
        assert(v@ =~= poll_requests_spec(reload, shutdown).0);
        (v, false)
    } else {
        v.push(IpcRequest::GetStatus);
        assert(v@ =~= poll_requests_spec(reload, shutdown).0);
        (v, true)
    }
}

/// A control request from the Windows service manager.
#[derive(Debug, Clone, Copy, PartialEq, Eq)]
pub enum ServiceControlKind {
    Stop,
    Shutdown,
    Interrogate,
    Other,
}

/// The service's answer to a control request, and whether it stops the audio.
#[derive(Debug, Clone, Copy, PartialEq, Eq)]
pub struct ControlResponse {
    pub handled: bool,
    pub signal_shutdown: bool,
}

/// Stop and shutdown end the audio service; interrogation is answered; the
/// rest is not implemented.
pub fn control_response(kind: ServiceControlKind) -> (r: ControlResponse)
    ensures
        r.signal_shutdown == (kind == ServiceControlKind::Stop || kind == ServiceControlKind::Shutdown),
        r.handled == (kind != ServiceControlKind::Other),
{
    match kind {
        ServiceControlKind::Stop | ServiceControlKind::Shutdown => ControlResponse { handled: true, signal_shutdown: true },
        ServiceControlKind::Interrogate => ControlResponse { handled: true, signal_shutdown: false },
        ServiceControlKind::Other => ControlResponse { handled: false, signal_shutdown: false },
    }
}

/// The `sc` arguments that register the service for the program `exe`.
pub fn install_args(exe: &str) -> (r: Vec<String>)
    ensures
        r@.map_values(|s: String| s@) == seq![
            "create"@,
            "InfernoAoIP"@,
            "binPath="@ + exe@ + " --service"@,
            "start=auto"@,
            "DisplayName=InfernoAoIP Dante Virtual Soundcard"@,
        ],
{
    let mut bin = "binPath=".to_owned();
    bin.append(exe);
    bin.append(" --service");
    let r = vec![
        "create".to_owned(),
        "InfernoAoIP".to_owned(),
        bin,
        "start=auto".to_owned(),
        "DisplayName=InfernoAoIP Dante Virtual Soundcard".to_owned(),
    ];
    assert(r@.map_values(|s: String| s@) =~= seq![
        "create"@,
        "InfernoAoIP"@,
        "binPath="@ + exe@ + " --service"@,
        "start=auto"@,
        "DisplayName=InfernoAoIP Dante Virtual Soundcard"@,
    ]);
    r
}

/// A message as sent on the pipe: the encoded message and a newline.
pub fn frame_line(encoded: &str) -> (r: String)
    ensures
        r@ == encoded@ + "\n"@,
{
    let mut r = encoded.to_owned();
    r.append("\n");
    r
}

/// Whether a poll goes on after writing `request`, given whether the write went
/// through: only a failed write of the status request ends it; the reload and
/// shutdown requests are sent without regard to the outcome.
pub fn poll_goes_on(request: IpcRequest, sent: bool) -> (r: bool)
    ensures
        r == (sent || !(request is GetStatus)),
{
    match request {
        IpcRequest::GetStatus => sent,
        _ => true,
    }
}

} // verus!
