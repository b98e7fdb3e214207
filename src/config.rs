//! Settings: environment values first, then command-line flags over them.
//!
//! Every setting has a default; a number that does not parse leaves the
//! value it would have replaced.
use vstd::prelude::*;

verus! {

pub open spec fn is_digit(c: char) -> bool {
    '0' <= c && c <= '9'
}

/// The value of a decimal digit (zero for any other character).
pub open spec fn digit_value(c: char) -> nat {
    if is_digit(c) { (c as u32 - '0' as u32) as nat } else { 0 }
}

/// The number that the digits of `s` write, most significant first.
pub open spec fn digits_value(s: Seq<char>) -> nat
    decreases s.len(),
{
    if s.len() == 0 {
        0
    } else {
        digits_value(s.drop_last()) * 10 + digit_value(s.last())
    }
}

/// `s` without one leading `+`.
pub open spec fn unsigned_digits(s: Seq<char>) -> Seq<char> {
    if s.len() > 0 && s[0] == '+' { s.drop_first() } else { s }
}

/// An unsigned decimal number no larger than `max`: an optional `+`, then
/// one or more digits and nothing else.
pub open spec fn parse_unsigned(s: Seq<char>, max: nat) -> Option<nat> {
    let d = unsigned_digits(s);
    if d.len() > 0 && (forall|i: int| 0 <= i < d.len() ==> is_digit(#[trigger] d[i]))
        && digits_value(d) <= max {
        Some(digits_value(d))
    } else {
        None
    }
}

proof fn lemma_prefix_value_le(s: Seq<char>, k: int)
    requires
        0 <= k <= s.len(),
    ensures
        digits_value(s.take(k)) <= digits_value(s),
    decreases s.len() - k,
{
    if k < s.len() {
        lemma_prefix_value_le(s, k + 1);
        assert(s.take(k + 1).drop_last() =~= s.take(k));
    } else {
        assert(s.take(k) =~= s);
    }
}

/// Parses an unsigned decimal number no larger than `max`.
pub fn parse_unsigned_exec(s: &str, max: u64) -> (r: Option<u64>)
    ensures
        r == (match parse_unsigned(s@, max as nat) {
            Some(v) => Some(v as u64),
            None => None::<u64>,
        }),
{
    let n = s.unicode_len();
    let mut start: usize = 0;
    if n > 0 && s.get_char(0) == '+' {
        start = 1;
    }
    let ghost d = unsigned_digits(s@);
    assert(d =~= s@.subrange(start as int, n as int));
    if start == n {
        return None;
    }
    let mut i: usize = start;
    let mut v: u64 = 0;
    assert(d.take(0) =~= Seq::<char>::empty());
    while i < n
        invariant
            start <= i <= n,
            n == s@.len(),
            d == s@.subrange(start as int, n as int),
            d == unsigned_digits(s@),
            forall|j: int| 0 <= j < i - start ==> is_digit(#[trigger] d[j]),
            v == digits_value(d.take(i - start)),
            v <= max,
        decreases n - i,
    {
        let c = s.get_char(i);
        assert(d[i - start] == c);
        assert(d.take(i + 1 - start).drop_last() =~= d.take(i - start));
        assert(d.take(i + 1 - start).last() == c);
        if !('0' <= c && c <= '9') {
            assert(!is_digit(d[i - start]));
            assert(!(forall|j: int| 0 <= j < d.len() ==> is_digit(#[trigger] d[j])));
            return None;
        }
        assert(digits_value(d.take(i + 1 - start)) == v * 10 + (c as u32 - '0' as u32));
        let w: u128 = v as u128 * 10 + (c as u32 - '0' as u32) as u128;
        if w > max as u128 {
            proof {
                if forall|j: int| 0 <= j < d.len() ==> is_digit(#[trigger] d[j]) {
                    lemma_prefix_value_le(d, i + 1 - start);
                    assert(digits_value(d) > max);
                }
            }
            return None;
        }
        v = w as u64;
        i = i + 1;
    }
    assert(d.take(i - start) =~= d);
    Some(v)
}

/// Whether two strings hold the same characters.
pub fn str_eq(a: &str, b: &str) -> (r: bool)
    ensures
        r == (a@ == b@),
{
    let n = a.unicode_len();
    if n != b.unicode_len() {
        return false;
    }
    let mut i: usize = 0;
    while i < n
        invariant
            i <= n,
            n == a@.len(),
            n == b@.len(),
            a@.take(i as int) == b@.take(i as int),
        decreases n - i,
    {
        if a.get_char(i) != b.get_char(i) {
            assert(a@[i as int] != b@[i as int]);
            return false;
        }
        assert(a@.take(i + 1) =~= a@.take(i as int).push(a@[i as int]));
        assert(b@.take(i + 1) =~= b@.take(i as int).push(b@[i as int]));
        i = i + 1;
    }
    assert(a@.take(n as int) =~= a@);
    assert(b@.take(n as int) =~= b@);
    true
}

/// The settings of the server.
pub struct Config {
    pub host: String,
    pub port: u16,
    pub path: String,
    pub interval: u64,
}

pub struct ConfigView {
    pub host: Seq<char>,
    pub port: u16,
    pub path: Seq<char>,
    pub interval: u64,
}

impl View for Config {
    type V = ConfigView;

    open spec fn view(&self) -> ConfigView {
        ConfigView { host: self.host@, port: self.port, path: self.path@, interval: self.interval }
    }
}

/// A setting that a command-line flag names.
#[derive(Clone, Copy, Debug, PartialEq, Eq, Structural)]
pub enum Flag {
    Host,
    Port,
    Path,
    Interval,
}

pub open spec fn default_host() -> Seq<char> {
    seq!['0', '.', '0', '.', '0', '.', '0']
}

pub open spec fn default_path() -> Seq<char> {
    seq!['/', 's', 't', 'a', 't', 's']
}

pub const DEFAULT_PORT: u16 = 3000;

pub const DEFAULT_INTERVAL: u64 = 1;

/// The port that `s` writes, or `prev`.
pub open spec fn port_or(s: Seq<char>, prev: u16) -> u16 {
    match parse_unsigned(s, u16::MAX as nat) {
        Some(v) => v as u16,
        None => prev,
    }
}

/// The interval in seconds that `s` writes, or `prev`.
pub open spec fn interval_or(s: Seq<char>, prev: u64) -> u64 {
    match parse_unsigned(s, u64::MAX as nat) {
        Some(v) => v as u64,
        None => prev,
    }
}

/// The settings from the environment's `HOST`, `PORT`, `PATH_STATS` and
/// `CACHE_INTERVAL`, each `None` where unset.
pub open spec fn env_config(
    host: Option<Seq<char>>,
    port: Option<Seq<char>>,
    path: Option<Seq<char>>,
    interval: Option<Seq<char>>,
) -> ConfigView {
    ConfigView {
        host: match host { Some(h) => h, None => default_host() },
        port: match port { Some(p) => port_or(p, DEFAULT_PORT), None => DEFAULT_PORT },
        path: match path { Some(p) => p, None => default_path() },
        interval: match interval { Some(i) => interval_or(i, DEFAULT_INTERVAL), None => DEFAULT_INTERVAL },
    }
}

/// The flag table: `--host`/`-h`, `--port`/`-p`, `--path`, `--interval`/`-i`.
pub open spec fn flag_of(a: Seq<char>) -> Option<Flag> {
    if a == seq!['-', '-', 'h', 'o', 's', 't'] || a == seq!['-', 'h'] {
        Some(Flag::Host)
    } else if a == seq!['-', '-', 'p', 'o', 'r', 't'] || a == seq!['-', 'p'] {
        Some(Flag::Port)
    } else if a == seq!['-', '-', 'p', 'a', 't', 'h'] {
        Some(Flag::Path)
    } else if a == seq!['-', '-', 'i', 'n', 't', 'e', 'r', 'v', 'a', 'l'] || a == seq!['-', 'i'] {
        Some(Flag::Interval)
    } else {
        None
    }
}

/// `c` with the setting `f` taken from `v`.
pub open spec fn set_flag(c: ConfigView, f: Flag, v: Seq<char>) -> ConfigView {
    match f {
        Flag::Host => ConfigView { host: v, ..c },
        Flag::Port => ConfigView { port: port_or(v, c.port), ..c },
        Flag::Path => ConfigView { path: v, ..c },
        Flag::Interval => ConfigView { interval: interval_or(v, c.interval), ..c },
    }
}

/// `c` after the arguments from index `i` on: a known flag followed by a
/// value sets its setting and both are consumed; anything else, including
/// a known flag in last place, is skipped.
pub open spec fn apply_args(c: ConfigView, args: Seq<Seq<char>>, i: int) -> ConfigView
    decreases args.len() - i,
{
    if i < 0 || i >= args.len() {
        c
    } else if flag_of(args[i]) is Some && i + 1 < args.len() {
        apply_args(set_flag(c, flag_of(args[i])->0, args[i + 1]), args, i + 2)
    } else {
        apply_args(c, args, i + 1)
    }
}

pub open spec fn opt_view(o: Option<String>) -> Option<Seq<char>> {
    match o {
        Some(s) => Some(s@),
        None => None,
    }
}

pub open spec fn args_view(args: Seq<String>) -> Seq<Seq<char>> {
    args.map_values(|s: String| s@)
}

/// Looks `a` up in the flag table.
pub fn flag_of_exec(a: &str) -> (r: Option<Flag>)
    ensures
        r == flag_of(a@),
{
    proof {
        reveal_strlit("--host");
        reveal_strlit("-h");
        reveal_strlit("--port");
        reveal_strlit("-p");
        reveal_strlit("--path");
        reveal_strlit("--interval");
        reveal_strlit("-i");
    }
    assert("--host"@ =~= seq!['-', '-', 'h', 'o', 's', 't']);
    assert("-h"@ =~= seq!['-', 'h']);
    assert("--port"@ =~= seq!['-', '-', 'p', 'o', 'r', 't']);
    assert("-p"@ =~= seq!['-', 'p']);
    assert("--path"@ =~= seq!['-', '-', 'p', 'a', 't', 'h']);
    assert("--interval"@ =~= seq!['-', '-', 'i', 'n', 't', 'e', 'r', 'v', 'a', 'l']);
    assert("-i"@ =~= seq!['-', 'i']);
    if str_eq(a, "--host") || str_eq(a, "-h") {
        Some(Flag::Host)
    } else if str_eq(a, "--port") || str_eq(a, "-p") {
        Some(Flag::Port)
    } else if str_eq(a, "--path") {
        Some(Flag::Path)
    } else if str_eq(a, "--interval") || str_eq(a, "-i") {
        Some(Flag::Interval)
    } else {
        None
    }
}

impl Config {
    /// `self` with the setting `f` taken from `v`.
    pub fn with_flag(self, f: Flag, v: &String) -> (r: Config)
        ensures
            r@ == set_flag(self@, f, v@),
    {
        let mut c = self;
        match f {
            Flag::Host => {
                c.host = v.clone();
            },
            Flag::Port => {
                match parse_unsigned_exec(v.as_str(), u16::MAX as u64) {
                    Some(p) => {
                        c.port = p as u16;
                    },
                    None => {},
                }
            },
            Flag::Path => {
                c.path = v.clone();
            },
            Flag::Interval => {
                match parse_unsigned_exec(v.as_str(), u64::MAX) {
                    Some(i) => {
                        c.interval = i;
                    },
                    None => {},
                }
            },
        }
        c
    }

    /// The settings from the environment's values and the command line
    /// `args`, whose first entry is the program's name.
    pub fn from_env(
        host: Option<String>,
        port: Option<String>,
        path: Option<String>,
        interval: Option<String>,
        args: &Vec<String>,
    ) -> (r: Config)
        ensures
            r@ == apply_args(
                env_config(opt_view(host), opt_view(port), opt_view(path), opt_view(interval)),
                args_view(args@),
                1,
            ),
    {
        proof {
            reveal_strlit("0.0.0.0");
            reveal_strlit("/stats");
        }
        assert("0.0.0.0"@ =~= default_host());
        assert("/stats"@ =~= default_path());
        let ghost init = env_config(opt_view(host), opt_view(port), opt_view(path), opt_view(interval));
        let ghost av = args_view(args@);
        let host = match host {
            Some(h) => h,
            None => String::from_str("0.0.0.0"),
        };
        let port = match port {
            Some(p) => match parse_unsigned_exec(p.as_str(), u16::MAX as u64) {
                Some(v) => v as u16,
                None => DEFAULT_PORT,
            },
            None => DEFAULT_PORT,
        };
        let path = match path {
            Some(p) => p,
            None => String::from_str("/stats"),
        };
        let interval = match interval {
            Some(i) => match parse_unsigned_exec(i.as_str(), u64::MAX) {
                Some(v) => v,
                None => DEFAULT_INTERVAL,
            },
            None => DEFAULT_INTERVAL,
        };
        let mut cfg = Config { host, port, path, interval };
        assert(cfg@ == init);
        let mut i: usize = 1;
        while i < args.len()
            invariant
                1 <= i,
                av == args_view(args@),
                av.len() == args@.len(),
                apply_args(cfg@, av, i as int) == apply_args(init, av, 1),
            decreases args.len() - i,
        {
            let f = flag_of_exec(args[i].as_str());
            assert(av[i as int] == args@[i as int]@);
            if f.is_some() && i + 1 < args.len() {
                assert(av[i + 1] == args@[i + 1]@);
                cfg = cfg.with_flag(f.unwrap(), &args[i + 1]);
                i = i + 2;
            } else {
                i = i + 1;
            }
        }
        cfg
    }
}

} // verus!
