//! The settings a Kafka consumer is created with: where it starts reading
//! when the group has no committed offset, and the group id that keeps it
//! apart from every other consumer.
use vstd::prelude::*;

verus! {

/// Where a new Kafka consumer starts when its group has no committed
/// offset: at the earliest message when reading from the beginning was
/// asked for, else at the latest.
pub fn auto_offset_reset(from_beginning: bool) -> (r: &'static str)
    ensures
        r@ == (if from_beginning { "earliest"@ } else { "latest"@ }),
{
    if from_beginning {
        "earliest"
    } else {
        "latest"
    }
}

/// Where the consumer of the earlier stream layer falls back to when no
/// offset is committed.
#[derive(Debug, Clone, Copy, PartialEq, Eq, Structural)]
pub enum FallbackOffset {
    Earliest,
    Latest,
}

/// The fallback offset of the earlier stream layer's consumer: the earliest
/// message when reading from the beginning was asked for, else the latest.
pub fn fallback_offset(from_beginning: bool) -> (r: FallbackOffset)
    ensures
        r == (if from_beginning { FallbackOffset::Earliest } else { FallbackOffset::Latest }),
{
    if from_beginning {
        FallbackOffset::Earliest
    } else {
        FallbackOffset::Latest
    }
}

/// The character of the decimal digit `d`.
pub open spec fn digit_char(d: nat) -> char {
    (48 + d) as char
}

/// The decimal digits of `n`, most significant first, with no leading zero.
pub open spec fn decimal(n: nat) -> Seq<char>
    decreases n,
{
    if n < 10 {
        seq![digit_char(n)]
    } else {
        decimal(n / 10).push(digit_char(n % 10))
    }
}

/// The one-character string of the digit `d`.
fn digit_str(d: u8) -> (r: &'static str)
    requires
        d < 10,
    ensures
        r@ == seq![digit_char(d as nat)],
{
    proof {
        reveal_strlit("0");
        reveal_strlit("1");
        reveal_strlit("2");
        reveal_strlit("3");
        reveal_strlit("4");
        reveal_strlit("5");
        reveal_strlit("6");
        reveal_strlit("7");
        reveal_strlit("8");
        reveal_strlit("9");
    }
    let r = match d {
        0 => "0",
        1 => "1",
        2 => "2",
        3 => "3",
        4 => "4",
        5 => "5",
        6 => "6",
        7 => "7",
        8 => "8",
        _ => "9",
    };
    assert(r@ =~= seq![digit_char(d as nat)]);
    r
}

/// Appends the decimal digits of `n` to `s`.
fn append_decimal(s: &mut String, n: u128)
    ensures
        final(s)@ == old(s)@ + decimal(n as nat),
    decreases n,
{
    if n >= 10 {
        append_decimal(s, n / 10);
    }
    let d = (n % 10) as u8;
    s.append(digit_str(d));
    assert(old(s)@ + decimal(n as nat) =~= old(s)@ + (if n >= 10 { decimal((n / 10) as nat) } else { Seq::empty() })
        + seq![digit_char(d as nat)]);
}

/// The group id of a consumer: the tool's version, the process id and the
/// start time in milliseconds, which together no other process shares.
pub fn consumer_group_id(version: &str, pid: u32, start_millis: u128) -> (r: String)
    ensures
        r@ == "pq-"@ + version@ + "-pid-"@ + decimal(pid as nat) + "-starttime-"@ + decimal(start_millis as nat),
{
    let mut r = String::from_str("pq-");
    r.append(version);
    r.append("-pid-");
    append_decimal(&mut r, pid as u128);
    r.append("-starttime-");
    append_decimal(&mut r, start_millis);
    r
}

} // verus!
