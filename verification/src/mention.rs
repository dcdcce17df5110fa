//! Parsing channel mentions: the textual form `<#identifier>` that names a
//! channel inside message text, and the cache-aware parse that resolves it.

use vstd::prelude::*;

verus! {

use vstd::string::StringSliceAdditionalSpecFns;
use vstd::string::StrSliceExecFns;

use crate::cache::{channel_lookup, Cache, FromStrAndCache};
use crate::channel::Channel;
use crate::id::ChannelId;

/// Whether a byte is an ASCII decimal digit.
pub open spec fn is_ascii_digit(b: u8) -> bool {
    48 <= b && b <= 57
}

/// The value of one ASCII decimal digit.
pub open spec fn digit_val(b: u8) -> int {
    b - 48
}

/// The number a run of ASCII digits spells, most significant first.
pub open spec fn digits_value(bs: Seq<u8>) -> int
    decreases bs.len(),
{
    if bs.len() == 0 {
        0
    } else {
        digits_value(bs.drop_last()) * 10 + digit_val(bs.last())
    }
}

/// Whether every byte is an ASCII decimal digit.
pub open spec fn all_digits(bs: Seq<u8>) -> bool {
    forall|i: int| 0 <= i < bs.len() ==> is_ascii_digit(bs[i])
}

/// Whether text is a channel mention: an opening `<#`, at least one digit
/// spelling a number a 64-bit identifier can hold, and a closing `>`.
pub open spec fn is_channel_mention(bs: Seq<u8>) -> bool {
    &&& bs.len() >= 4
    &&& bs[0] == 60
    &&& bs[1] == 35
    &&& bs[bs.len() - 1] == 62
    &&& all_digits(bs.subrange(2, bs.len() - 1))
    &&& digits_value(bs.subrange(2, bs.len() - 1)) <= u64::MAX
}

/// The identifier a channel mention spells.
pub open spec fn mention_value(bs: Seq<u8>) -> int {
    digits_value(bs.subrange(2, bs.len() - 1))
}

/// A run of digits spells a nonnegative number.
proof fn lemma_digits_nonneg(bs: Seq<u8>)
    requires
        all_digits(bs),
    ensures
        digits_value(bs) >= 0,
    decreases bs.len(),
{
    if bs.len() > 0 {
        assert(all_digits(bs.drop_last())) by {
            assert(forall|i: int| 0 <= i < bs.len() - 1 ==> bs.drop_last()[i] == bs[i]);
        }
        lemma_digits_nonneg(bs.drop_last());
        assert(is_ascii_digit(bs[bs.len() - 1]));
    }
}

/// Appending digits never shrinks the number a run spells.
proof fn lemma_digits_prefix(bs: Seq<u8>, j: int)
    requires
        all_digits(bs),
        0 <= j <= bs.len(),
    ensures
        digits_value(bs.subrange(0, j)) <= digits_value(bs),
    decreases bs.len(),
{
    if j == bs.len() {
        assert(bs.subrange(0, j) =~= bs);
    } else {
        assert(all_digits(bs.drop_last())) by {
            assert(forall|i: int| 0 <= i < bs.len() - 1 ==> bs.drop_last()[i] == bs[i]);
        }
        lemma_digits_prefix(bs.drop_last(), j);
        assert(bs.subrange(0, j) =~= bs.drop_last().subrange(0, j));
        lemma_digits_nonneg(bs.drop_last());
        assert(is_ascii_digit(bs[bs.len() - 1]));
    }
}

/// Reads a channel mention out of text: the mentioned identifier exactly
/// when the text has the mention form, nothing otherwise.
pub fn parse_channel(s: &str) -> (r: Option<u64>)
    ensures
        match r {
            Some(id) => is_channel_mention(s.spec_bytes()) && id == mention_value(s.spec_bytes()),
            None => !is_channel_mention(s.spec_bytes()),
        },
{
    let sb = s.as_bytes_vec();
    let n = sb.len();
    if n < 4 {
        return None;
    }
    if sb[0] != 60 || sb[1] != 35 || sb[n - 1] != 62 {
        return None;
    }
    let mut v: u64 = 0;
    let mut i: usize = 2;
    while i < n - 1
        invariant
            2 <= i <= n - 1,
            n == sb@.len(),
            n >= 4,
            sb@ == s.spec_bytes(),
            forall|j: int| 2 <= j < i ==> is_ascii_digit(sb@[j]),
            v == digits_value(sb@.subrange(2, i as int)),
        decreases n - i,
    {
        let b = sb[i];
        if b < 48 || b > 57 {
            proof {
                assert(!is_ascii_digit(s.spec_bytes().subrange(2, n - 1)[i - 2]));
            }
            return None;
        }
        let du = (b - 48) as u64;
        proof {
            assert(sb@.subrange(2, i + 1 as int).drop_last() =~= sb@.subrange(2, i as int));
            assert(sb@.subrange(2, i + 1 as int).last() == sb@[i as int]);
            let m: int = u64::MAX as int;
            let dv: int = du as int;
            assert(m - dv - 9 <= 10 * ((m - dv) / 10) <= m - dv) by (nonlinear_arith)
                requires
                    0 <= dv <= 9,
                    m == u64::MAX as int,
            ;
        }
        if v > (u64::MAX - du) / 10 {
            proof {
                assert(v * 10 + du > u64::MAX);
                if is_channel_mention(s.spec_bytes()) {
                    let mid = s.spec_bytes().subrange(2, n - 1);
                    assert(sb@.subrange(2, i + 1 as int) =~= mid.subrange(0, i - 1));
                    lemma_digits_prefix(mid, i - 1);
                    assert(digits_value(mid.subrange(0, i - 1)) == v * 10 + du);
                }
            }
            return None;
        }
        proof {
            assert(v * 10 + du <= u64::MAX);
        }
        v = v * 10 + du;
        i = i + 1;
    }
    proof {
        let mid = s.spec_bytes().subrange(2, n - 1);
        assert(mid =~= sb@.subrange(2, (n - 1) as int));
        assert(forall|j: int| 0 <= j < mid.len() ==> is_ascii_digit(#[trigger] mid[j]));
        assert(digits_value(mid) == v);
        assert(is_channel_mention(s.spec_bytes()));
    }
    Some(v)
}

/// Why text failed to resolve to a cached channel.
#[derive(Clone, Copy, Debug, PartialEq, Eq, Structural)]
pub enum ChannelParseError {
    /// The text is not a channel mention.
    InvalidChannel,
    /// The mentioned channel is not in the cache.
    NotPresentInCache,
}

impl FromStrAndCache for Channel {
    type Err = ChannelParseError;

    /// Parses a channel mention and resolves it against the cache: the
    /// resolved channel for a mention of a cached identifier, and otherwise
    /// the error that says which step failed.
    fn from_str(cache: &Cache, s: &str) -> (r: Result<Channel, ChannelParseError>)
        ensures
            match r {
                Ok(ch) => is_channel_mention(s.spec_bytes()) && channel_lookup(
                    cache@,
                    mention_value(s.spec_bytes()) as u64,
                ) == Some(ch@),
                Err(e) => match e {
                    ChannelParseError::InvalidChannel => !is_channel_mention(s.spec_bytes()),
                    ChannelParseError::NotPresentInCache => is_channel_mention(s.spec_bytes())
                        && channel_lookup(cache@, mention_value(s.spec_bytes()) as u64) is None,
                },
            },
    {
        match parse_channel(s) {
            Some(id) => match cache.channel(ChannelId(id)) {
                Some(ch) => Ok(ch),
                None => Err(ChannelParseError::NotPresentInCache),
            },
            None => Err(ChannelParseError::InvalidChannel),
        }
    }
}

} // verus!
