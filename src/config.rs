use vstd::prelude::*;
use crate::error::IndexerError;

verus! {

/// The settings the indexer runs with.
#[derive(Debug, Clone)]
pub struct Config {
    pub rpc_endpoint: String,
    pub blocks_in_memory: usize,
    pub metrics_port: u16,
    pub data_dir: String,
    pub rotation_blocks: u64,
    pub start_block: Option<u64>,
}

/// The raw setting texts as found in the process environment, each absent
/// when unset. `start_block_truncated` is the start block text read as a
/// floating-point number and truncated toward zero, where it reads as one.
#[derive(Debug, Clone)]
pub struct Settings {
    pub rpc_endpoint: Option<String>,
    pub blocks_in_memory: Option<String>,
    pub metrics_port: Option<String>,
    pub data_dir: Option<String>,
    pub rotation_blocks: Option<String>,
    pub start_block: Option<String>,
    pub start_block_truncated: Option<u64>,
}

pub const DEFAULT_RPC_ENDPOINT: &'static str = "https://rpc.sepolia.org";
pub const DEFAULT_BLOCKS_IN_MEMORY: usize = 1000;
pub const DEFAULT_METRICS_PORT: u16 = 9090;
pub const DEFAULT_DATA_DIR: &'static str = "/data/eth-indexer";
pub const DEFAULT_ROTATION_BLOCKS: u64 = 10000;

pub open spec fn is_digit(c: char) -> bool {
    '0' <= c && c <= '9'
}

pub open spec fn all_digits(s: Seq<char>) -> bool {
    forall|i: int| 0 <= i < s.len() ==> is_digit(#[trigger] s[i])
}

/// The number that a string of decimal digits denotes.
pub open spec fn digits_value(s: Seq<char>) -> nat
    decreases s.len(),
{
    if s.len() == 0 {
        0
    } else {
        digits_value(s.drop_last()) * 10 + (s.last() as nat - '0' as nat) as nat
    }
}

/// The digits of an unsigned decimal literal: an optional leading `+`, then
/// at least one ASCII digit.
pub open spec fn unsigned_digits(s: Seq<char>) -> Seq<char> {
    if s.len() > 0 && s[0] == '+' { s.drop_first() } else { s }
}

/// The value of `s` read as an unsigned decimal number no larger than `max`.
pub open spec fn parse_bounded(s: Seq<char>, max: nat) -> Option<nat> {
    let d = unsigned_digits(s);
    if d.len() > 0 && all_digits(d) && digits_value(d) <= max {
        Some(digits_value(d))
    } else {
        None
    }
}

proof fn lemma_digits_value_grows(s: Seq<char>, k: int)
    requires
        0 <= k <= s.len(),
        all_digits(s),
    ensures
        digits_value(s.take(k)) <= digits_value(s),
    decreases s.len() - k,
{
    if k < s.len() {
        lemma_digits_value_grows(s, k + 1);
        let t = s.take(k + 1);
        assert(t.drop_last() =~= s.take(k));
        assert(is_digit(s[k]));
    } else {
        assert(s.take(k) =~= s);
    }
}

/// Reads `s` as an unsigned decimal number of at most `max`.
pub fn parse_decimal(s: &str, max: u64) -> (r: Option<u64>)
    ensures
        match r {
            Some(v) => parse_bounded(s@, max as nat) == Some(v as nat),
            None => parse_bounded(s@, max as nat) is None,
        },
{
    let n = s.unicode_len();
    let mut i: usize = 0;
    if n > 0 && s.get_char(0) == '+' {
        i = 1;
    }
    let ghost d = unsigned_digits(s@);
    proof {
        assert(d =~= s@.subrange(i as int, n as int));
    }
    if i >= n {
        return None;
    }
    let start = i;
    let mut acc: u64 = 0;
    while i < n
        invariant
            n == s@.len(),
            start <= i <= n,
            start < n,
            d == s@.subrange(start as int, n as int),
            d == unsigned_digits(s@),
            all_digits(d.take(i - start)),
            acc as nat == digits_value(d.take(i - start)),
            acc <= max,
        decreases n - i,
    {
        let c = s.get_char(i);
        proof {
            assert(d.take(i - start + 1).drop_last() =~= d.take(i - start));
            assert(d[i - start] == c);
        }
        if c < '0' || c > '9' {
            proof {
                assert(!is_digit(d[i - start]));
                assert(!all_digits(d));
                assert(parse_bounded(s@, max as nat) is None);
            }
            return None;
        }
        let dv = (c as u32 - '0' as u32) as u64;
        if dv > max || acc > (max - dv) / 10 {
            proof {
                assert(all_digits(d.take(i - start + 1)));
                assert(digits_value(d.take(i - start + 1)) > max) by (nonlinear_arith)
                    requires
                        digits_value(d.take(i - start + 1)) == acc as nat * 10 + dv as nat,
                        dv > max || acc > (max - dv) / 10;
                if all_digits(d) {
                    lemma_digits_value_grows(d, i - start + 1);
                }
            }
            return None;
        }
        proof {
            assert((acc * 10 + dv) as nat <= max) by (nonlinear_arith)
                requires
                    acc <= (max - dv) / 10,
                    dv <= max;
        }
        acc = acc * 10 + dv;
        proof {
            assert(all_digits(d.take(i - start + 1)));
        }
        i = i + 1;
    }
    proof {
        assert(d.take(n - start) =~= d);
    }
    Some(acc)
}

/// The start block: the text read as an integer, or else as a number with a
/// fractional part truncated toward zero.
pub open spec fn start_block_of(text: Option<String>, truncated: Option<u64>) -> Option<u64> {
    match text {
        None => None,
        Some(t) => match parse_bounded(t@, u64::MAX as nat) {
            Some(v) => Some(v as u64),
            None => truncated,
        },
    }
}

/// The text of a setting, or its default when unset.
pub open spec fn text_or(o: Option<String>, default: Seq<char>) -> Seq<char> {
    match o {
        Some(s) => s@,
        None => default,
    }
}

/// The number a setting holds, or its default when unset or unreadable.
pub open spec fn number_or(o: Option<String>, max: nat, default: nat) -> nat {
    match o {
        Some(s) => match parse_bounded(s@, max) {
            Some(v) => v,
            None => default,
        },
        None => default,
    }
}

fn text_setting(o: &Option<String>, default: &str) -> (r: String)
    ensures
        r@ == text_or(*o, default@),
{
    match o {
        Some(s) => s.clone(),
        None => String::from_str(default),
    }
}

fn number_setting(o: &Option<String>, max: u64, default: u64) -> (r: u64)
    requires
        default <= max,
    ensures
        r as nat == number_or(*o, max as nat, default as nat),
        r <= max,
{
    match o {
        Some(s) => match parse_decimal(s.as_str(), max) {
            Some(v) => v,
            None => default,
        },
        None => default,
    }
}

/// What `Config::load` yields for `s`.
pub open spec fn loaded(s: Settings, c: Config) -> bool {
    &&& c.rpc_endpoint@ == text_or(s.rpc_endpoint, DEFAULT_RPC_ENDPOINT@)
    &&& c.blocks_in_memory as nat == number_or(
        s.blocks_in_memory,
        usize::MAX as nat,
        DEFAULT_BLOCKS_IN_MEMORY as nat,
    )
    &&& c.metrics_port as nat == number_or(s.metrics_port, u16::MAX as nat, DEFAULT_METRICS_PORT as nat)
    &&& c.data_dir@ == text_or(s.data_dir, DEFAULT_DATA_DIR@)
    &&& c.rotation_blocks as nat == number_or(
        s.rotation_blocks,
        u64::MAX as nat,
        DEFAULT_ROTATION_BLOCKS as nat,
    )
    &&& c.start_block == start_block_of(s.start_block, s.start_block_truncated)
}

impl Config {
    /// Resolves the settings: each unset or unreadable number takes its
    /// default, each unset text takes its default.
    pub fn load(settings: &Settings) -> (r: Result<Config, IndexerError>)
        ensures
            r matches Ok(c) && loaded(*settings, c),
    {
        let blocks_in_memory = number_setting(
            &settings.blocks_in_memory,
            usize::MAX as u64,
            DEFAULT_BLOCKS_IN_MEMORY as u64,
        ) as usize;
        let start_block = match &settings.start_block {
            None => None,
            Some(t) => match parse_decimal(t.as_str(), u64::MAX) {
                Some(v) => Some(v),
                None => settings.start_block_truncated,
            },
        };
        let c = Config {
            rpc_endpoint: text_setting(&settings.rpc_endpoint, DEFAULT_RPC_ENDPOINT),
            blocks_in_memory,
            metrics_port: number_setting(&settings.metrics_port, u16::MAX as u64, DEFAULT_METRICS_PORT as u64) as u16,
            data_dir: text_setting(&settings.data_dir, DEFAULT_DATA_DIR),
            rotation_blocks: number_setting(&settings.rotation_blocks, u64::MAX, DEFAULT_ROTATION_BLOCKS),
            start_block,
        };
        Ok(c)
    }
}

} // verus!
