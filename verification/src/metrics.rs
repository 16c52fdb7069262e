use vstd::prelude::*;
use vstd::string::StringSliceAdditionalSpecFns;
use std::time::{Duration, Instant};
use crate::ptp::instant_now;
use crate::text::{decimal_text, push_decimal};

verus! {

/// `Instant::elapsed`: the time since `start` on the monotonic clock.
#[verifier::external_body]
fn instant_elapsed(start: &Instant) -> Duration {
    start.elapsed()
}

/// `Duration::as_secs`: the whole seconds of a duration.
#[verifier::external_body]
fn duration_as_secs(d: Duration) -> u64 {
    d.as_secs()
}

/// The whole seconds since `start`.
fn elapsed_secs(start: &Instant) -> u64 {
    duration_as_secs(instant_elapsed(start))
}

/// Counters of the audio service, exported in the Prometheus text format.
pub struct Metrics {
    pub uptime_start: Instant,
    pub packets_received: u64,
    pub packets_lost: u64,
    pub tx_bytes: u64,
    pub rx_bytes: u64,
}

/// The Prometheus exposition of the counters.
pub open spec fn prometheus_text(uptime: u64, pkts_rx: u64, pkts_lost: u64, tx_bytes: u64, rx_bytes: u64) -> Seq<char> {
    "# HELP inferno_uptime_seconds Time since service start\n# TYPE inferno_uptime_seconds gauge\ninferno_uptime_seconds "@
        + decimal_text(uptime as nat)
        + "\n# HELP inferno_packets_received_total RTP packets received\n# TYPE inferno_packets_received_total counter\ninferno_packets_received_total "@
        + decimal_text(pkts_rx as nat)
        + "\n# HELP inferno_packets_lost_total RTP packets lost\n# TYPE inferno_packets_lost_total counter\ninferno_packets_lost_total "@
        + decimal_text(pkts_lost as nat)
        + "\n# HELP inferno_tx_bytes_total TX bytes sent\n# TYPE inferno_tx_bytes_total counter\ninferno_tx_bytes_total "@
        + decimal_text(tx_bytes as nat)
        + "\n# HELP inferno_rx_bytes_total RX bytes received\n# TYPE inferno_rx_bytes_total counter\ninferno_rx_bytes_total "@
        + decimal_text(rx_bytes as nat)
        + "\n"@
}

impl Metrics {
    /// All counters at zero, uptime counted from now.
    pub fn new() -> (m: Metrics)
        ensures
            m.packets_received == 0,
            m.packets_lost == 0,
            m.tx_bytes == 0,
            m.rx_bytes == 0,
    {
        Metrics { uptime_start: instant_now(), packets_received: 0, packets_lost: 0, tx_bytes: 0, rx_bytes: 0 }
    }

    /// The Prometheus exposition for an uptime of `uptime` seconds.
    pub fn render_prometheus_at(&self, uptime: u64) -> (s: String)
        ensures
            s@ == prometheus_text(uptime, self.packets_received, self.packets_lost, self.tx_bytes, self.rx_bytes),
    {
        let mut s = String::new();
        s.append("# HELP inferno_uptime_seconds Time since service start\n# TYPE inferno_uptime_seconds gauge\ninferno_uptime_seconds ");
        push_decimal(&mut s, uptime);
        s.append("\n# HELP inferno_packets_received_total RTP packets received\n# TYPE inferno_packets_received_total counter\ninferno_packets_received_total ");
        push_decimal(&mut s, self.packets_received);
        s.append("\n# HELP inferno_packets_lost_total RTP packets lost\n# TYPE inferno_packets_lost_total counter\ninferno_packets_lost_total ");
        push_decimal(&mut s, self.packets_lost);
        s.append("\n# HELP inferno_tx_bytes_total TX bytes sent\n# TYPE inferno_tx_bytes_total counter\ninferno_tx_bytes_total ");
        push_decimal(&mut s, self.tx_bytes);
        s.append("\n# HELP inferno_rx_bytes_total RX bytes received\n# TYPE inferno_rx_bytes_total counter\ninferno_rx_bytes_total ");
        push_decimal(&mut s, self.rx_bytes);
        s.append("\n");
        assert(s@ =~= prometheus_text(uptime, self.packets_received, self.packets_lost, self.tx_bytes, self.rx_bytes));
        s
    }

    /// The Prometheus exposition with the uptime measured now.
    pub fn render_prometheus(&self) -> (s: String)
        ensures
            exists|uptime: u64| s@ == prometheus_text(
                uptime, self.packets_received, self.packets_lost, self.tx_bytes, self.rx_bytes),
    {
        let uptime = elapsed_secs(&self.uptime_start);
        self.render_prometheus_at(uptime)
    }
}

/// The HTTP response that carries a metrics body.
pub open spec fn http_metrics_response_text(body: &str) -> Seq<char> {
    "HTTP/1.1 200 OK\r\nContent-Type: text/plain; version=0.0.4\r\nContent-Length: "@
        + decimal_text(body.spec_bytes().len()) + "\r\n\r\n"@ + body@
}

/// Wrap a metrics body in an HTTP 200 response with its length in bytes.
pub fn http_metrics_response(body: &str) -> (s: String)
    ensures
        s@ == http_metrics_response_text(body),
{
    let mut s = String::new();
    s.append("HTTP/1.1 200 OK\r\nContent-Type: text/plain; version=0.0.4\r\nContent-Length: ");
    let len = body.as_bytes().len();
    push_decimal(&mut s, len as u64);
    s.append("\r\n\r\n");
    s.append(body);
    assert(s@ =~= http_metrics_response_text(body));
    s
}

} // verus!
