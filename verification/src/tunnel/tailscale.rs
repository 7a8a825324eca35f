//! A tunnel through Tailscale: `tailscale serve` reaches the tailnet alone, `tailscale
//! funnel` the whole internet.
//!
//! Tailscale must be installed and logged in. The tunnel itself starts no process: each
//! of its functions says which command to run next, or takes what came of one.

use crate::json;
use crate::system;
use crate::text;
use vstd::prelude::*;

verus! {

/// A tunnel, and where it is reached while it is open.
#[derive(Debug)]
pub struct TailscaleTunnel {
    /// Whether the tunnel is open to the internet.
    pub funnel: bool,
    /// The name of this host, if it need not be asked for.
    pub hostname: Option<String>,
    /// Where the tunnel is reached, while it is open.
    pub url: Option<String>,
}

/// A `TailscaleTunnel`, with its texts as sequences of characters.
pub struct TailscaleTunnelView {
    pub funnel: bool,
    pub hostname: Option<Seq<char>>,
    /// Where the tunnel is reached, while it is open.
    pub url: Option<Seq<char>>,
}

impl DeepView for TailscaleTunnel {
    type V = TailscaleTunnelView;

    open spec fn deep_view(&self) -> TailscaleTunnelView {
        TailscaleTunnelView {
            funnel: self.funnel,
            hostname: self.hostname.deep_view(),
            url: self.url.deep_view(),
        }
    }
}

/// The arguments of a `tailscale` that is to run.
#[derive(Debug)]
pub enum TunnelStep {
    /// Run it and wait; go on with `status_found`.
    Status(Vec<String>),
    /// Start it and let it run; go on with `spawned` and this host's name.
    Spawn(Vec<String>, String),
    /// The tunnel cannot be opened.
    Failed(String),
}

/// A `TunnelStep`, with its texts as sequences of characters.
pub enum TunnelStepView {
    Status(Seq<Seq<char>>),
    Spawn(Seq<Seq<char>>, Seq<char>),
    Failed(Seq<char>),
}

impl DeepView for TunnelStep {
    type V = TunnelStepView;

    open spec fn deep_view(&self) -> TunnelStepView {
        match self {
            TunnelStep::Status(args) => TunnelStepView::Status(args.deep_view()),
            TunnelStep::Spawn(args, host) => TunnelStepView::Spawn(args.deep_view(), host@),
            TunnelStep::Failed(message) => TunnelStepView::Failed(message@),
        }
    }
}

/// The subcommand that opens or resets a tunnel.
pub open spec fn subcommand_of(funnel: bool) -> Seq<char> {
    if funnel {
        "funnel"@
    } else {
        "serve"@
    }
}

/// How a tunnel from `port` is opened, under the name `host`.
pub open spec fn spawn_step(funnel: bool, host: Seq<char>, port: nat) -> TunnelStepView {
    TunnelStepView::Spawn(seq![subcommand_of(funnel), text::decimal(port)], host)
}

/// What opening a tunnel begins with.
pub open spec fn first_step(tunnel: TailscaleTunnelView, port: nat) -> TunnelStepView {
    match tunnel.hostname {
        Some(host) => spawn_step(tunnel.funnel, host, port),
        None => TunnelStepView::Status(seq!["status"@, "--json"@]),
    }
}

/// The name of a host whose DNS name, as far as it is known, is this one: the dots at
/// its end are no part of it.
pub open spec fn host_of(dns_name: Option<Seq<char>>) -> Seq<char> {
    text::trimmed_end_of(
        match dns_name {
            Some(name) => name,
            None => "localhost"@,
        },
        '.',
    )
}

/// What follows on the answer of `tailscale status`, where `dns_name` is the name that
/// its output gives.
pub open spec fn status_step(
    funnel: bool,
    success: bool,
    dns_name: Option<Seq<char>>,
    errors: Seq<char>,
    port: nat,
) -> TunnelStepView {
    if success {
        spawn_step(funnel, host_of(dns_name), port)
    } else {
        TunnelStepView::Failed("tailscale status failed: "@ + errors)
    }
}

/// Where a tunnel is reached.
pub open spec fn url_of(host: Seq<char>, port: nat) -> Seq<char> {
    "https://"@ + host + ":"@ + text::decimal(port)
}

/// A tunnel that was opened from `port`, under the name `host`.
pub open spec fn opened(
    tunnel: TailscaleTunnelView,
    host: Seq<char>,
    port: nat,
) -> TailscaleTunnelView {
    TailscaleTunnelView { url: Some(url_of(host, port)), ..tunnel }
}

/// A tunnel that was closed.
pub open spec fn shut(tunnel: TailscaleTunnelView) -> TailscaleTunnelView {
    TailscaleTunnelView { url: None, ..tunnel }
}

/// The name of the host with this DNS name, if it is known.
pub fn host_name(dns_name: Option<String>) -> (host: String)
    ensures
        host@ == host_of(dns_name.deep_view()),
{
    match dns_name {
        Some(name) => text::trim_end_of(name.as_str(), '.'),
        None => text::trim_end_of("localhost", '.'),
    }
}

impl TailscaleTunnel {
    /// A tunnel that is not open yet.
    pub fn new(funnel: bool, hostname: Option<String>) -> (tunnel: Self)
        ensures
            tunnel.deep_view() == (TailscaleTunnelView {
                funnel,
                hostname: hostname.deep_view(),
                url: None,
            }),
    {
        TailscaleTunnel { funnel, hostname, url: None }
    }

    /// The name of this kind of tunnel.
    pub fn name(&self) -> (name: &'static str)
        ensures
            name@ == "tailscale"@,
    {
        "tailscale"
    }

    fn subcommand(&self) -> (name: &'static str)
        ensures
            name@ == subcommand_of(self.deep_view().funnel),
    {
        if self.funnel {
            "funnel"
        } else {
            "serve"
        }
    }

    fn spawn(&self, host: String, port: u16) -> (step: TunnelStep)
        ensures
            step.deep_view() == spawn_step(self.deep_view().funnel, host@, port as nat),
    {
        let args = vec![String::from_str(self.subcommand()), text::decimal_text(port as u64)];
        assert(args.deep_view() =~= seq![
            subcommand_of(self.deep_view().funnel),
            text::decimal(port as nat),
        ]);
        TunnelStep::Spawn(args, host)
    }

    /// Begins to open the tunnel. It leads to `local_port`, whatever the local host is
    /// called.
    pub fn start(&self, _local_host: &str, local_port: u16) -> (step: TunnelStep)
        ensures
            step.deep_view() == first_step(self.deep_view(), local_port as nat),
    {
        match &self.hostname {
            Some(host) => self.spawn(host.clone(), local_port),
            None => {
                let args = vec![String::from_str("status"), String::from_str("--json")];
                assert(args.deep_view() =~= seq!["status"@, "--json"@]);
                TunnelStep::Status(args)
            },
        }
    }

    /// Goes on with the answer of `tailscale status`: whether it succeeded, and what it
    /// wrote to its output and its error output.
    pub fn status_found(
        &self,
        success: bool,
        stdout: &[u8],
        stderr: &[u8],
        local_port: u16,
    ) -> (step: TunnelStep)
        ensures
            step.deep_view() == status_step(
                self.deep_view().funnel,
                success,
                json::json_nested_str_field(stdout@, "Self"@, "DNSName"@),
                system::lossy_text(stderr@),
                local_port as nat,
            ),
    {
        if !success {
            let errors = system::decode_lossy(stderr);
            return self.dns_name_found(success, None, errors.as_str(), local_port);
        }
        let dns_name = json::nested_str_field(stdout, "Self", "DNSName");
        self.dns_name_found(success, dns_name, "", local_port)
    }

    /// Goes on with what `tailscale status` told: the DNS name of this host, as far as
    /// it is known, or why the status is not known.
    pub fn dns_name_found(
        &self,
        success: bool,
        dns_name: Option<String>,
        errors: &str,
        local_port: u16,
    ) -> (step: TunnelStep)
        ensures
            step.deep_view() == status_step(
                self.deep_view().funnel,
                success,
                dns_name.deep_view(),
                errors@,
                local_port as nat,
            ),
    {
        if !success {
            let mut message = String::from_str("tailscale status failed: ");
            message.append(errors);
            return TunnelStep::Failed(message);
        }
        self.spawn(host_name(dns_name), local_port)
    }

    /// The tunnel's process runs: the tunnel is open. Returns where it is reached.
    pub fn spawned(&mut self, hostname: &str, local_port: u16) -> (url: String)
        ensures
            url@ == url_of(hostname@, local_port as nat),
            final(self).deep_view() == opened(old(self).deep_view(), hostname@, local_port as nat),
    {
        let mut url = String::from_str("https://");
        url.append(hostname);
        url.append(":");
        url.append(text::decimal_text(local_port as u64).as_str());
        self.url = Some(url.clone());
        url
    }

    /// Begins to close the tunnel: the arguments of a `tailscale` to run and wait for,
    /// whatever comes of it. Then the tunnel's process is ended; go on with `stopped`.
    pub fn stop(&self) -> (args: Vec<String>)
        ensures
            args.deep_view() == seq![subcommand_of(self.deep_view().funnel), "reset"@],
    {
        let args = vec![String::from_str(self.subcommand()), String::from_str("reset")];
        assert(args.deep_view() =~= seq![subcommand_of(self.deep_view().funnel), "reset"@]);
        args
    }

    /// The tunnel's process has ended, or there was none: the tunnel is closed.
    pub fn stopped(&mut self)
        ensures
            final(self).deep_view() == shut(old(self).deep_view()),
    {
        self.url = None;
    }

    /// Whether the tunnel is open and its process, if it has an identifier, still runs.
    pub fn health_check(&self, child_id: Option<u32>) -> (healthy: bool)
        ensures
            healthy == (self.deep_view().url is Some && child_id is Some),
    {
        self.url.is_some() && child_id.is_some()
    }

    /// Where the tunnel is reached, while it is open.
    pub fn public_url(&self) -> (url: Option<String>)
        ensures
            url.deep_view() == self.deep_view().url,
    {
        text::copy_option(&self.url)
    }
}

/// A tunnel that was opened is reached at its URL; closed again, it is reached nowhere
/// and can be opened anew as before.
pub proof fn tunnel_is_reached_while_open(tunnel: TailscaleTunnelView, host: Seq<char>, port: nat)
    ensures
        opened(tunnel, host, port).url == Some(url_of(host, port)),
        shut(opened(tunnel, host, port)).url is None,
        shut(opened(tunnel, host, port)) == shut(tunnel),
        first_step(shut(opened(tunnel, host, port)), port) == first_step(tunnel, port),
{
}

proof fn lemma_trimmed_end_of(chars: Seq<char>, c: char)
    ensures
        text::trimmed_end_of(chars, c).len() > 0 ==> text::trimmed_end_of(chars, c).last() != c,
    decreases chars.len(),
{
    if chars.len() > 0 && chars.last() == c {
        lemma_trimmed_end_of(chars.drop_last(), c);
    }
}

/// A host's name does not end in a dot, whatever its DNS name is.
pub proof fn host_ends_in_no_dot(dns_name: Option<Seq<char>>)
    ensures
        host_of(dns_name).len() > 0 ==> host_of(dns_name).last() != '.',
{
    lemma_trimmed_end_of(
        match dns_name {
            Some(name) => name,
            None => "localhost"@,
        },
        '.',
    );
}

/// A host without a DNS name is called "localhost".
pub proof fn nameless_host_is_local()
    ensures
        host_of(None) == "localhost"@,
{
    reveal_strlit("localhost");
}

/// A tunnel whose host has a given name is opened without asking for one, under that
/// name.
pub proof fn given_name_is_used(tunnel: TailscaleTunnelView, port: nat)
    requires
        tunnel.hostname is Some,
    ensures
        first_step(tunnel, port) == spawn_step(tunnel.funnel, tunnel.hostname->0, port),
{
}

/// A host's name is its DNS name without the dots at its end, and nothing else is taken away.
pub proof fn host_is_its_dns_name(dns_name: Seq<char>)
    ensures
        host_of(Some(dns_name)).is_prefix_of(dns_name),
        forall|i: int|
            host_of(Some(dns_name)).len() <= i < dns_name.len() ==> #[trigger] dns_name[i] == '.',
        dns_name.len() > 0 && dns_name.last() != '.' ==> host_of(Some(dns_name)) == dns_name,
{
    text::end_is_trimmed(dns_name, '.');
    let host = host_of(Some(dns_name));
    if dns_name.len() > 0 && dns_name.last() != '.' && host.len() < dns_name.len() {
        assert(dns_name[dns_name.len() - 1] == '.');
    }
    assert(dns_name.take(dns_name.len() as int) =~= dns_name);
}

/// A tunnel is opened with `funnel` or `serve`, as it was set up, for the port that was asked
/// for, under the host's name.
pub proof fn tunnel_is_opened_for_its_port(funnel: bool, host: Seq<char>, port: nat)
    ensures
        spawn_step(funnel, host, port) matches TunnelStepView::Spawn(args, name) && {
            &&& args.len() == 2
            &&& args[0] == (if funnel {
                "funnel"@
            } else {
                "serve"@
            })
            &&& args[1] == text::decimal(port)
            &&& text::number_of(args[1]) == port
            &&& name == host
        },
{
    text::decimal_stands_for_the_number(port);
}

/// Without a given name the host's name is asked for; then the tunnel is opened under the name
/// that was told, or it is reported in full why the status is not known.
pub proof fn status_decides(
    tunnel: TailscaleTunnelView,
    success: bool,
    dns_name: Option<Seq<char>>,
    errors: Seq<char>,
    port: nat,
)
    ensures
        tunnel.hostname is None ==> first_step(tunnel, port) == TunnelStepView::Status(
            seq!["status"@, "--json"@],
        ),
        success ==> status_step(tunnel.funnel, success, dns_name, errors, port) == spawn_step(
            tunnel.funnel,
            host_of(dns_name),
            port,
        ),
        !success ==> (status_step(tunnel.funnel, success, dns_name, errors, port) matches
            TunnelStepView::Failed(message) && errors.is_suffix_of(message)
            && "tailscale status failed: "@.is_prefix_of(message) && message.len()
            == "tailscale status failed: "@.len() + errors.len()),
{
    let start = "tailscale status failed: "@;
    let message = start + errors;
    assert(message.subrange(message.len() - errors.len(), message.len() as int) =~= errors);
    assert(message.take(start.len() as int) =~= start);
}

/// A tunnel is reached by https at its host and its port.
pub proof fn url_names_host_and_port(host: Seq<char>, port: nat)
    ensures
        ("https://"@ + host + ":"@).is_prefix_of(url_of(host, port)),
        url_of(host, port).skip(("https://"@ + host + ":"@).len() as int) == text::decimal(port),
        text::number_of(text::decimal(port)) == port,
{
    let start = "https://"@ + host + ":"@;
    let url = url_of(host, port);
    assert(url.take(start.len() as int) =~= start);
    assert(url.skip(start.len() as int) =~= text::decimal(port));
    text::decimal_stands_for_the_number(port);
}

/// Opening and closing a tunnel change where it is reached, and nothing of how it was set up.
pub proof fn setup_stays(tunnel: TailscaleTunnelView, host: Seq<char>, port: nat)
    ensures
        opened(tunnel, host, port).funnel == tunnel.funnel,
        opened(tunnel, host, port).hostname == tunnel.hostname,
        shut(tunnel).funnel == tunnel.funnel,
        shut(tunnel).hostname == tunnel.hostname,
        shut(tunnel).url is None,
{
}

} // verus!
