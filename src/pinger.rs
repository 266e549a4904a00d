use crate::parse::{Dialect, PingResult};
use crate::target::{ip_text, select_spec, target_of, IPVersion, IpAddress, Target};
use crate::text::{chars_of, contains, contains_exec, decimal, digit_char, push_decimal};
use vstd::prelude::*;

verus! {

/// Port that TCP probing connects to when none is given.
pub const DEFAULT_TCP_PORT: u16 = 80;

/// What to probe and how.
#[derive(Debug, Clone)]
pub struct PingOptions {
    pub target: Target,
    /// Time between probes, in milliseconds.
    pub interval: u64,
    /// Network interface to send from.
    pub interface: Option<String>,
    /// Arguments passed through to the platform `ping`.
    pub raw_arguments: Option<Vec<String>>,
    /// Probe by TCP connect instead of ICMP.
    pub tcping: bool,
    /// Port for TCP probing.
    pub port: Option<u16>,
    /// Count a refused TCP connection as a reply.
    pub allow_rst: bool,
}

/// Why a pinger could not be created or started.
#[derive(Debug, Clone)]
pub enum PingCreationError {
    /// `ping -V` gave nothing this library recognises; the first two lines of
    /// each stream.
    UnknownPing { stderr: Vec<String>, stdout: Vec<String> },
    /// `ping` could not be spawned.
    SpawnError(String),
    /// The installed `ping` is a kind this library cannot read.
    NotSupported { alternative: String },
    /// The host name did not resolve.
    HostnameError(String),
}

/// The views of a sequence of strings.
pub open spec fn texts(v: Seq<String>) -> Seq<Seq<char>> {
    v.map_values(|s: String| s@)
}

impl PingOptions {
    /// Options for `target` with no pass-through arguments, probing by ICMP.
    pub fn from_target(target: Target, interval: u64, interface: Option<String>) -> (r: Self)
        requires
            interval > 0,
        ensures
            r.target == target,
            r.interval == interval,
            r.interface == interface,
            r.raw_arguments is None,
            !r.tcping,
            r.port is None,
            !r.allow_rst,
    {
        PingOptions {
            target,
            interval,
            interface,
            raw_arguments: None,
            tcping: false,
            port: None,
            allow_rst: false,
        }
    }

    /// Options for the host or address `value`, of any family; `literal` is
    /// what `value` parses to as an address, if it is one.
    pub fn new(
        value: String,
        literal: Option<IpAddress>,
        interval: u64,
        interface: Option<String>,
    ) -> (r: Self)
        requires
            interval > 0,
        ensures
            r == Self::from_target_spec(
                target_of(value, literal, IPVersion::Any),
                interval,
                interface,
            ),
    {
        Self::from_target(Target::new_any(value, literal), interval, interface)
    }

    /// As `new`, resolving to IPv4.
    pub fn new_ipv4(
        value: String,
        literal: Option<IpAddress>,
        interval: u64,
        interface: Option<String>,
    ) -> (r: Self)
        requires
            interval > 0,
        ensures
            r == Self::from_target_spec(
                target_of(value, literal, IPVersion::V4),
                interval,
                interface,
            ),
    {
        Self::from_target(Target::new_ipv4(value, literal), interval, interface)
    }

    /// As `new`, resolving to IPv6.
    pub fn new_ipv6(
        value: String,
        literal: Option<IpAddress>,
        interval: u64,
        interface: Option<String>,
    ) -> (r: Self)
        requires
            interval > 0,
        ensures
            r == Self::from_target_spec(
                target_of(value, literal, IPVersion::V6),
                interval,
                interface,
            ),
    {
        Self::from_target(Target::new_ipv6(value, literal), interval, interface)
    }

    /// What `from_target` builds.
    pub open spec fn from_target_spec(
        target: Target,
        interval: u64,
        interface: Option<String>,
    ) -> Self {
        PingOptions {
            target,
            interval,
            interface,
            raw_arguments: None,
            tcping: false,
            port: None,
            allow_rst: false,
        }
    }

    /// These options with `raw_arguments` passed through to `ping`.
    pub fn with_raw_arguments(self, raw_arguments: Vec<String>) -> (r: Self)
        ensures
            r == (PingOptions { raw_arguments: Some(raw_arguments), ..self }),
    {
        PingOptions { raw_arguments: Some(raw_arguments), ..self }
    }

    /// These options, probing by TCP connect or not.
    pub fn with_tcping(self, tcping: bool) -> (r: Self)
        ensures
            r == (PingOptions { tcping, ..self }),
    {
        PingOptions { tcping, ..self }
    }

    /// These options with the TCP port set.
    pub fn with_port(self, port: u16) -> (r: Self)
        ensures
            r == (PingOptions { port: Some(port), ..self }),
    {
        PingOptions { port: Some(port), ..self }
    }

    /// These options, counting a refused connection as a reply or not.
    pub fn with_allow_rst(self, allow_rst: bool) -> (r: Self)
        ensures
            r == (PingOptions { allow_rst, ..self }),
    {
        PingOptions { allow_rst, ..self }
    }
}

/// The interval in tenths of a second, rounded half up.
pub open spec fn interval_tenths(ms: u64) -> nat {
    ((ms as nat + 50) / 100) as nat
}

/// The `-i` argument of `ping`: the interval in seconds with one decimal.
pub open spec fn interval_arg(ms: u64) -> Seq<char> {
    seq!['-', 'i'] + decimal(interval_tenths(ms) / 10) + seq!['.'] + seq![
        digit_char(interval_tenths(ms) % 10),
    ]
}

/// The text of a target on a command line.
pub open spec fn target_arg(t: Target) -> Seq<char> {
    match t {
        Target::IP(ip) => ip_text(ip),
        Target::Hostname { domain, .. } => domain@,
    }
}

/// `ping6` for IPv6 targets, `ping` otherwise.
pub open spec fn ping_cmd(t: Target) -> Seq<char> {
    let v6 = match t {
        Target::IP(ip) => ip is V6,
        Target::Hostname { version, .. } => version == IPVersion::V6,
    };
    if v6 {
        "ping6"@
    } else {
        "ping"@
    }
}

/// `flag` and the interface, when there is one.
pub open spec fn interface_args(flag: Seq<char>, interface: Option<String>) -> Seq<Seq<char>> {
    match interface {
        Some(i) => seq![flag, i@],
        None => Seq::empty(),
    }
}

pub open spec fn raw_args(raw: Option<Vec<String>>) -> Seq<Seq<char>> {
    match raw {
        Some(v) => texts(v@),
        None => Seq::empty(),
    }
}

fn interval_arg_exec(ms: u64) -> (r: String)
    ensures
        r@ == interval_arg(ms),
{
    proof {
        reveal_strlit("-i");
        reveal_strlit(".");
    }
    let tenths: u64 = ms / 100 + if ms % 100 >= 50 {
        1
    } else {
        0
    };
    assert(tenths == interval_tenths(ms));
    let mut out = String::from_str("-i");
    push_decimal(&mut out, tenths / 10);
    out.append(".");
    push_decimal(&mut out, tenths % 10);
    assert(out@ =~= interval_arg(ms));
    out
}

fn ping_cmd_exec(t: &Target) -> (r: String)
    ensures
        r@ == ping_cmd(*t),
{
    if t.is_ipv6() {
        String::from_str("ping6")
    } else {
        String::from_str("ping")
    }
}

fn push_interface(args: &mut Vec<String>, flag: &str, interface: &Option<String>)
    ensures
        texts(final(args)@) == texts(old(args)@) + interface_args(flag@, *interface),
{
    let ghost before = texts(args@);
    match interface {
        Some(i) => {
            args.push(String::from_str(flag));
            args.push(i.clone());
            assert(texts(args@) =~= before + interface_args(flag@, *interface));
        },
        None => {
            assert(texts(args@) =~= before + interface_args(flag@, *interface));
        },
    }
}

/// Appends the pass-through arguments, if there are any.
fn push_raw(args: &mut Vec<String>, raw: &Option<Vec<String>>)
    ensures
        texts(final(args)@) == texts(old(args)@) + raw_args(*raw),
{
    match raw {
        Some(raw) => {
            let mut i: usize = 0;
            let ghost start = texts(args@);
            while i < raw.len()
                invariant
                    i <= raw@.len(),
                    texts(args@) == start + texts(raw@.subrange(0, i as int)),
                decreases raw@.len() - i,
            {
                push_string(args, raw[i].clone());
                i += 1;
                assert(texts(raw@.subrange(0, i as int)) =~= texts(raw@.subrange(0, i - 1)).push(
                    raw@[i - 1]@,
                ));
            }
            assert(raw@.subrange(0, i as int) =~= raw@);
        },
        None => {
            assert(texts(args@) =~= texts(args@) + raw_args(None));
        },
    }
}

fn push_string(args: &mut Vec<String>, s: String)
    ensures
        texts(final(args)@) == texts(old(args)@).push(s@),
{
    let ghost before = texts(args@);
    args.push(s);
    assert(texts(args@) =~= before.push(s@));
}

/// The Linux `ping` flavours, each with its options.
#[derive(Debug, Clone)]
pub enum LinuxPinger {
    /// BusyBox, as on Alpine.
    BusyBox(PingOptions),
    /// iputils, as on Debian and Ubuntu.
    IPTools(PingOptions),
}

/// End of the line that starts at `i`: the next newline, or the end.
pub open spec fn line_end(s: Seq<char>, i: int) -> int
    decreases s.len() - i,
{
    if i < 0 || i >= s.len() || s[i] == '\n' {
        i
    } else {
        line_end(s, i + 1)
    }
}

/// The line from `i` to `e`, without a carriage return before its newline.
pub open spec fn line_from(s: Seq<char>, i: int, e: int) -> Seq<char> {
    if e > i && s[e - 1] == '\r' {
        s.subrange(i, e - 1)
    } else {
        s.subrange(i, e)
    }
}

/// The first `n` lines of `s`, from position `i`, as `str::lines` splits them.
pub open spec fn first_lines(s: Seq<char>, i: int, n: nat) -> Seq<Seq<char>>
    decreases n,
{
    if n == 0 || i < 0 || i >= s.len() {
        Seq::empty()
    } else {
        let e = line_end(s, i);
        seq![line_from(s, i, e)] + first_lines(s, e + 1, (n - 1) as nat)
    }
}

proof fn lemma_line_end(s: Seq<char>, i: int)
    requires
        0 <= i <= s.len(),
    ensures
        i <= line_end(s, i) <= s.len(),
    decreases s.len() - i,
{
    if i < s.len() && s[i] != '\n' {
        lemma_line_end(s, i + 1);
    }
}

fn first_lines_exec(s: &str, n: usize) -> (r: Vec<String>)
    ensures
        texts(r@) == first_lines(s@, 0, n as nat),
{
    let c = chars_of(s);
    let mut r: Vec<String> = Vec::new();
    let mut i: usize = 0;
    let mut k: usize = 0;
    while k < n && i < c.len()
        invariant
            c@ == s@,
            k <= n,
            i <= c@.len(),
            texts(r@) + first_lines(s@, i as int, (n - k) as nat) == first_lines(s@, 0, n as nat),
        decreases n - k,
    {
        let mut e = i;
        while e < c.len() && c[e] != '\n'
            invariant
                i <= e <= c@.len(),
                line_end(c@, e as int) == line_end(c@, i as int),
            decreases c@.len() - e,
        {
            e += 1;
        }
        let stop = if e > i && c[e - 1] == '\r' {
            e - 1
        } else {
            e
        };
        let line = s.substring_char(i, stop);
        let ghost before = texts(r@);
        r.push(line.to_owned());
        assert(texts(r@) =~= before.push(line_from(s@, i as int, e as int)));
        assert(first_lines(s@, i as int, (n - k) as nat) =~= seq![line_from(s@, i as int, e as int)]
            + first_lines(s@, e + 1, (n - k - 1) as nat));
        assert(texts(r@) + first_lines(s@, e + 1, (n - k - 1) as nat) =~= before + first_lines(
            s@,
            i as int,
            (n - k) as nat,
        ));
        i = if e < c.len() {
            e + 1
        } else {
            e
        };
        k += 1;
        assert(first_lines(s@, i as int, (n - k) as nat) == first_lines(s@, e + 1, (n - k) as nat));
    }
    assert(first_lines(s@, i as int, (n - k) as nat) =~= Seq::<Seq<char>>::empty());
    assert(texts(r@) =~= texts(r@) + Seq::<Seq<char>>::empty());
    r
}

impl LinuxPinger {
    /// Tells BusyBox from iputils by what `ping -V` printed: `BusyBox` in
    /// stderr is BusyBox, `iputils` in stdout is iputils, `inetutils` in
    /// stdout is refused, and anything else is unknown, reported with the
    /// first two lines of each stream.
    pub fn detect_platform_ping(options: PingOptions, stdout: String, stderr: String) -> (r: Result<
        LinuxPinger,
        PingCreationError,
    >)
        ensures
            contains(stderr@, "BusyBox"@) ==> (r matches Ok(LinuxPinger::BusyBox(o)) && o
                == options),
            !contains(stderr@, "BusyBox"@) && contains(stdout@, "iputils"@) ==> (r matches Ok(
                LinuxPinger::IPTools(o),
            ) && o == options),
            !contains(stderr@, "BusyBox"@) && !contains(stdout@, "iputils"@) && contains(
                stdout@,
                "inetutils"@,
            ) ==> (r matches Err(PingCreationError::NotSupported { alternative }) && alternative@
                == "Please use iputils ping, not inetutils."@),
            !contains(stderr@, "BusyBox"@) && !contains(stdout@, "iputils"@) && !contains(
                stdout@,
                "inetutils"@,
            ) ==> (r matches Err(PingCreationError::UnknownPing { stderr: e, stdout: o }) && texts(
                e@,
            ) == first_lines(stderr@, 0, 2) && texts(o@) == first_lines(stdout@, 0, 2)),
    {
        let out = chars_of(stdout.as_str());
        let err = chars_of(stderr.as_str());
        if contains_exec(err.as_slice(), chars_of("BusyBox").as_slice()) {
            Ok(LinuxPinger::BusyBox(options))
        } else if contains_exec(out.as_slice(), chars_of("iputils").as_slice()) {
            Ok(LinuxPinger::IPTools(options))
        } else if contains_exec(out.as_slice(), chars_of("inetutils").as_slice()) {
            Err(
                PingCreationError::NotSupported {
                    alternative: String::from_str("Please use iputils ping, not inetutils."),
                },
            )
        } else {
            Err(
                PingCreationError::UnknownPing {
                    stderr: first_lines_exec(stderr.as_str(), 2),
                    stdout: first_lines_exec(stdout.as_str(), 2),
                },
            )
        }
    }

    /// The parser that reads this `ping`'s output.
    pub fn dialect(&self) -> (r: Dialect)
        ensures
            r == Dialect::Linux,
    {
        Dialect::Linux
    }

    /// The command and arguments that start this `ping`. iputils gets `-O` so
    /// that it reports missed replies, then the interval, the interface, the
    /// pass-through arguments and the target; BusyBox, which has no such flag,
    /// gets the pass-through arguments, the target and the interval.
    pub fn ping_args(&self) -> (r: (String, Vec<String>))
        ensures
            match self {
                LinuxPinger::BusyBox(o) => r.0@ == ping_cmd(o.target) && texts(r.1@) == raw_args(
                    o.raw_arguments,
                ) + seq![target_arg(o.target), interval_arg(o.interval)],
                LinuxPinger::IPTools(o) => r.0@ == ping_cmd(o.target) && texts(r.1@) == seq![
                    "-O"@,
                    interval_arg(o.interval),
                ] + interface_args("-I"@, o.interface) + raw_args(o.raw_arguments) + seq![
                    target_arg(o.target),
                ],
            },
    {
        match self {
            LinuxPinger::BusyBox(options) => {
                let mut args: Vec<String> = Vec::new();
                push_raw(&mut args, &options.raw_arguments);
                push_string(&mut args, options.target.to_text());
                push_string(&mut args, interval_arg_exec(options.interval));
                assert(texts(args@) =~= raw_args(options.raw_arguments) + seq![
                    target_arg(options.target),
                    interval_arg(options.interval),
                ]);
                (ping_cmd_exec(&options.target), args)
            },
            LinuxPinger::IPTools(options) => {
                let mut args: Vec<String> = Vec::new();
                push_string(&mut args, String::from_str("-O"));
                push_string(&mut args, interval_arg_exec(options.interval));
                push_interface(&mut args, "-I", &options.interface);
                push_raw(&mut args, &options.raw_arguments);
                push_string(&mut args, options.target.to_text());
                assert(texts(args@) =~= seq!["-O"@, interval_arg(options.interval)] + interface_args(
                    "-I"@,
                    options.interface,
                ) + raw_args(options.raw_arguments) + seq![target_arg(options.target)]);
                (ping_cmd_exec(&options.target), args)
            },
        }
    }
}

/// `ping` on FreeBSD, DragonFly, OpenBSD and NetBSD.
#[derive(Debug, Clone)]
pub struct BSDPinger {
    pub options: PingOptions,
}

impl BSDPinger {
    pub fn from_options(options: PingOptions) -> (r: Result<Self, PingCreationError>)
        ensures
            r matches Ok(p) && p.options == options,
    {
        Ok(BSDPinger { options })
    }

    /// The parser that reads this `ping`'s output.
    pub fn dialect(&self) -> (r: Dialect)
        ensures
            r == Dialect::Bsd,
    {
        Dialect::Bsd
    }

    /// `ping` with the interval, the interface, the pass-through arguments and
    /// the target.
    pub fn ping_args(&self) -> (r: (String, Vec<String>))
        ensures
            r.0@ == "ping"@,
            texts(r.1@) == seq![interval_arg(self.options.interval)] + interface_args(
                "-I"@,
                self.options.interface,
            ) + raw_args(self.options.raw_arguments) + seq![target_arg(self.options.target)],
    {
        let o = &self.options;
        let mut args: Vec<String> = Vec::new();
        push_string(&mut args, interval_arg_exec(o.interval));
        push_interface(&mut args, "-I", &o.interface);
        push_raw(&mut args, &o.raw_arguments);
        push_string(&mut args, o.target.to_text());
        assert(texts(args@) =~= seq![interval_arg(o.interval)] + interface_args("-I"@, o.interface)
            + raw_args(o.raw_arguments) + seq![target_arg(o.target)]);
        (String::from_str("ping"), args)
    }
}

/// `ping` on macOS.
#[derive(Debug, Clone)]
pub struct MacOSPinger {
    pub options: PingOptions,
}

impl MacOSPinger {
    pub fn from_options(options: PingOptions) -> (r: Result<Self, PingCreationError>)
        ensures
            r matches Ok(p) && p.options == options,
    {
        Ok(MacOSPinger { options })
    }

    /// The parser that reads this `ping`'s output.
    pub fn dialect(&self) -> (r: Dialect)
        ensures
            r == Dialect::Bsd,
    {
        Dialect::Bsd
    }

    /// `ping` or `ping6` with the interval, the pass-through arguments, the
    /// target and the interface.
    pub fn ping_args(&self) -> (r: (String, Vec<String>))
        ensures
            r.0@ == ping_cmd(self.options.target),
            texts(r.1@) == seq![interval_arg(self.options.interval)] + raw_args(
                self.options.raw_arguments,
            ) + seq![target_arg(self.options.target)] + interface_args(
                "-b"@,
                self.options.interface,
            ),
    {
        let o = &self.options;
        let mut args: Vec<String> = Vec::new();
        push_string(&mut args, interval_arg_exec(o.interval));
        push_raw(&mut args, &o.raw_arguments);
        push_string(&mut args, o.target.to_text());
        push_interface(&mut args, "-b", &o.interface);
        assert(texts(args@) =~= seq![interval_arg(o.interval)] + raw_args(o.raw_arguments) + seq![
            target_arg(o.target),
        ] + interface_args("-b"@, o.interface));
        (ping_cmd_exec(&o.target), args)
    }
}

/// `ping` on Windows, driven through the ICMP API rather than a process.
#[derive(Debug, Clone)]
pub struct WindowsPinger {
    pub options: PingOptions,
}

impl WindowsPinger {
    pub fn from_options(options: PingOptions) -> (r: Result<Self, PingCreationError>)
        ensures
            r matches Ok(p) && p.options == options,
    {
        Ok(WindowsPinger { options })
    }

    /// The parser for the output of Windows `ping`.
    pub fn dialect(&self) -> (r: Dialect)
        ensures
            r == Dialect::Windows,
    {
        Dialect::Windows
    }

    /// The address to probe: the target's own, or the first of its family
    /// among `candidates`, what its host name resolved to. A host name with
    /// none fails with `HostnameError`.
    pub fn target_address(&self, candidates: &Vec<IpAddress>) -> (r: Result<IpAddress, PingCreationError>)
        ensures
            match self.options.target {
                Target::IP(ip) => r == Ok::<IpAddress, PingCreationError>(ip),
                Target::Hostname { domain, version } => match select_spec(candidates@, version) {
                    Ok(ip) => r == Ok::<IpAddress, PingCreationError>(ip),
                    Err(_) => r matches Err(PingCreationError::HostnameError(d)) && d@ == domain@,
                },
            },
    {
        match self.options.target.resolve_with(candidates) {
            Ok(ip) => Ok(ip),
            Err(_) => match &self.options.target {
                Target::Hostname { domain, .. } => Err(PingCreationError::HostnameError(domain.clone())),
                Target::IP(ip) => Ok(*ip),
            },
        }
    }

    /// The report of one probe: the round-trip time in milliseconds that the
    /// ICMP API gave, or a timeout for any failure.
    pub fn outcome(&self, reply: Option<u32>) -> (r: PingResult)
        ensures
            match reply {
                Some(ms) => r matches PingResult::Pong(d, l) && d == ms as u128 * 1_000_000 && l@.len()
                    == 0,
                None => r matches PingResult::Timeout(l) && l@.len() == 0,
            },
    {
        match reply {
            Some(ms) => PingResult::Pong(ms as u128 * 1_000_000, String::new()),
            None => PingResult::Timeout(String::new()),
        }
    }
}

/// How one TCP connection attempt ended.
#[derive(Debug, Clone, Copy, PartialEq, Eq, Structural)]
pub enum ConnectOutcome {
    Connected,
    /// The host answered with a reset.
    Refused,
    /// Timed out, or failed in any other way.
    Failed,
}

/// Probing by TCP connect.
#[derive(Debug, Clone)]
pub struct TcpPinger {
    pub options: PingOptions,
}

impl TcpPinger {
    pub fn from_options(options: PingOptions) -> (r: Result<Self, PingCreationError>)
        ensures
            r matches Ok(p) && p.options == options,
    {
        Ok(TcpPinger { options })
    }

    /// The port to connect to: the one configured, else 80.
    pub fn port(&self) -> (r: u16)
        ensures
            r == match self.options.port {
                Some(p) => p,
                None => DEFAULT_TCP_PORT,
            },
    {
        match self.options.port {
            Some(p) => p,
            None => DEFAULT_TCP_PORT,
        }
    }

    /// The `host:port` text that the resolver is asked about.
    pub fn socket_text(&self) -> (r: String)
        ensures
            r@ == target_arg(self.options.target) + seq![':'] + decimal(
                match self.options.port {
                    Some(p) => p,
                    None => DEFAULT_TCP_PORT,
                } as nat,
            ),
    {
        proof {
            reveal_strlit(":");
        }
        let mut out = self.options.target.to_text();
        out.append(":");
        push_decimal(&mut out, self.port() as u64);
        out
    }

    /// The report of one attempt on `address` that took `elapsed`
    /// nanoseconds: a connection is a reply, and so is a refusal when the
    /// options count resets as replies; anything else is a timeout.
    pub fn outcome(&self, attempt: ConnectOutcome, elapsed: u128, address: String) -> (r: PingResult)
        ensures
            (attempt == ConnectOutcome::Connected || (attempt == ConnectOutcome::Refused
                && self.options.allow_rst)) ==> (r matches PingResult::Pong(d, a) && d == elapsed
                && a@ == address@),
            !(attempt == ConnectOutcome::Connected || (attempt == ConnectOutcome::Refused
                && self.options.allow_rst)) ==> (r matches PingResult::Timeout(a) && a@
                == address@),
    {
        let reply = match attempt {
            ConnectOutcome::Connected => true,
            ConnectOutcome::Refused => self.options.allow_rst,
            ConnectOutcome::Failed => false,
        };
        if reply {
            PingResult::Pong(elapsed, address)
        } else {
            PingResult::Timeout(address)
        }
    }

    /// The report when the target did not resolve: the resolver's error, or
    /// that it returned no address.
    pub fn unresolved(&self, error: Option<String>) -> (r: PingResult)
        ensures
            match error {
                Some(e) => r matches PingResult::Unknown(m) && m@ == "Resolve error: "@ + e@,
                None => r matches PingResult::Unknown(m) && m@ == "Unable to resolve address"@,
            },
    {
        match error {
            Some(e) => {
                let mut m = String::from_str("Resolve error: ");
                m.append(e.as_str());
                PingResult::Unknown(m)
            },
            None => PingResult::Unknown(String::from_str("Unable to resolve address")),
        }
    }
}

/// Lowest fake round-trip time, in milliseconds.
pub const FAKE_MIN_MS: u64 = 51;

/// Bound above the fake round-trip times, in milliseconds.
pub const FAKE_MAX_MS: u64 = 150;

/// Relies on rand::random_range: a value drawn uniformly from `low..high`
/// (it panics only on an empty range).
#[verifier::external_body]
fn random_in(low: u64, high: u64) -> (r: u64)
    requires
        low < high,
    ensures
        low <= r < high,
{
    rand::random_range(low..high)
}

/// The report line of a fake reply.
pub open spec fn fake_line(ms: u64) -> Seq<char> {
    "Fake ping line: "@ + decimal(ms as nat) + " ms"@
}

/// A strategy that makes up replies, for testing without a network.
#[derive(Debug, Clone)]
pub struct FakePinger {
    pub options: PingOptions,
}

impl FakePinger {
    pub fn from_options(options: PingOptions) -> (r: Result<Self, PingCreationError>)
        ensures
            r matches Ok(p) && p.options == options,
    {
        Ok(FakePinger { options })
    }

    /// The fake reply that took `ms` milliseconds.
    pub fn fake_pong(ms: u64) -> (r: PingResult)
        ensures
            r matches PingResult::Pong(d, l) && d == ms as u128 * 1_000_000 && l@ == fake_line(ms),
    {
        proof {
            reveal_strlit(" ms");
        }
        let mut line = String::from_str("Fake ping line: ");
        push_decimal(&mut line, ms);
        line.append(" ms");
        PingResult::Pong(ms as u128 * 1_000_000, line)
    }

    /// A fake reply with a random time from 51 up to, not including, 150
    /// milliseconds.
    pub fn next_result(&self) -> (r: PingResult)
        ensures
            exists|ms: u64|
                FAKE_MIN_MS <= ms < FAKE_MAX_MS && (r matches PingResult::Pong(d, l) && d == ms as u128
                    * 1_000_000 && l@ == #[trigger] fake_line(ms)),
    {
        let ms = random_in(FAKE_MIN_MS, FAKE_MAX_MS);
        Self::fake_pong(ms)
    }
}

/// The platforms the strategies are written for.
#[derive(Debug, Clone, Copy, PartialEq, Eq, Structural)]
pub enum Platform {
    Linux,
    FreeBsd,
    DragonFly,
    OpenBsd,
    NetBsd,
    MacOS,
    Windows,
}

/// The probing strategies.
#[derive(Debug, Clone, Copy, PartialEq, Eq, Structural)]
pub enum StrategyKind {
    Fake,
    Tcp,
    Windows,
    Bsd,
    MacOS,
    /// Linux, where BusyBox and iputils are told apart at start.
    Linux,
}

/// The strategy for a platform: the fake one when switched on, TCP when asked
/// for, else the platform's own `ping`.
pub open spec fn strategy_for(platform: Platform, tcping: bool, fake: bool) -> StrategyKind {
    if fake {
        StrategyKind::Fake
    } else if tcping {
        StrategyKind::Tcp
    } else {
        match platform {
            Platform::Windows => StrategyKind::Windows,
            Platform::FreeBsd | Platform::DragonFly | Platform::OpenBsd | Platform::NetBsd => StrategyKind::Bsd,
            Platform::MacOS => StrategyKind::MacOS,
            Platform::Linux => StrategyKind::Linux,
        }
    }
}

/// Picks the strategy for `options` on `platform`; `fake` says whether the
/// fake strategy was switched on.
pub fn select_strategy(platform: Platform, options: &PingOptions, fake: bool) -> (r: StrategyKind)
    ensures
        r == strategy_for(platform, options.tcping, fake),
{
    if fake {
        StrategyKind::Fake
    } else if options.tcping {
        StrategyKind::Tcp
    } else {
        match platform {
            Platform::Windows => StrategyKind::Windows,
            Platform::FreeBsd | Platform::DragonFly | Platform::OpenBsd | Platform::NetBsd => StrategyKind::Bsd,
            Platform::MacOS => StrategyKind::MacOS,
            Platform::Linux => StrategyKind::Linux,
        }
    }
}

/// Whether the value of the switch for the fake strategy turns it on: only
/// `1` does.
pub fn fake_switch_on(value: &str) -> (r: bool)
    ensures
        r == (value@ == "1"@),
{
    proof {
        reveal_strlit("1");
    }
    if value.unicode_len() == 1 && value.get_char(0) == '1' {
        assert(value@ =~= "1"@);
        true
    } else {
        false
    }
}

} // verus!
