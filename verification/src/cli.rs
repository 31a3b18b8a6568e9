use vstd::prelude::*;
use vstd::string::StringSliceAdditionalSpecFns;
use vstd::utf8::encode_utf8;

verus! {

/// The byte is an ASCII decimal digit.
pub open spec fn is_dec_digit(b: u8) -> bool {
    48 <= b <= 57
}

/// Every byte of `s` is a decimal digit.
pub open spec fn all_dec_digits(s: Seq<u8>) -> bool {
    forall|i: int| 0 <= i < s.len() ==> is_dec_digit(#[trigger] s[i])
}

/// The number a decimal digit string denotes.
pub open spec fn dec_value(s: Seq<u8>) -> int
    decreases s.len(),
{
    if s.len() == 0 {
        0
    } else {
        dec_value(s.drop_last()) * 10 + (s.last() - 48)
    }
}

/// `s` denotes a number that fits a u32: nonempty, all digits, value in
/// range.
pub open spec fn parses_u32(s: Seq<u8>) -> bool {
    s.len() >= 1 && all_dec_digits(s) && dec_value(s) <= u32::MAX
}

proof fn lemma_dec_value_nonneg(s: Seq<u8>)
    requires
        all_dec_digits(s),
    ensures
        dec_value(s) >= 0,
    decreases s.len(),
{
    if s.len() > 0 {
        assert(all_dec_digits(s.drop_last()));
        lemma_dec_value_nonneg(s.drop_last());
    }
}

/// The number a digit string denotes is at least the number any of its
/// prefixes denotes.
proof fn lemma_dec_value_prefix_le(s: Seq<u8>, i: int)
    requires
        all_dec_digits(s),
        0 <= i <= s.len(),
    ensures
        dec_value(s.subrange(0, i)) <= dec_value(s),
    decreases s.len(),
{
    if i == s.len() {
        assert(s.subrange(0, i) =~= s);
    } else {
        assert(all_dec_digits(s.drop_last()));
        lemma_dec_value_prefix_le(s.drop_last(), i);
        assert(s.drop_last().subrange(0, i) =~= s.subrange(0, i));
        lemma_dec_value_nonneg(s.drop_last());
    }
}

/// Parse an unsigned decimal number: `Some` exactly when the whole string is
/// one or more decimal digits whose value fits a u32.
pub fn parse_u32(s: &str) -> (r: Option<u32>)
    ensures
        r is Some <==> parses_u32(s.spec_bytes()),
        r matches Some(n) ==> n == dec_value(s.spec_bytes()),
{
    let bytes: &[u8] = s.as_bytes();
    let n = bytes.len();
    if n == 0 {
        return None;
    }
    let mut acc: u64 = 0;
    let mut i: usize = 0;
    while i < n
        invariant
            0 <= i <= n,
            n == s.spec_bytes().len(),
            bytes@ == s.spec_bytes(),
            acc <= u32::MAX,
            acc == dec_value(s.spec_bytes().subrange(0, i as int)),
            forall|k: int| 0 <= k < i ==> is_dec_digit(#[trigger] s.spec_bytes()[k]),
        decreases n - i,
    {
        let b = bytes[i];
        if b < 48 || b > 57 {
            return None;
        }
        let d: u64 = (b - 48) as u64;
        let next: u64 = acc * 10 + d;
        proof {
            let pre = s.spec_bytes().subrange(0, i as int);
            let cur = s.spec_bytes().subrange(0, i + 1);
            assert(cur.drop_last() =~= pre);
            assert(cur.last() == s.spec_bytes()[i as int]);
            assert(dec_value(cur) == next);
        }
        if next > 0xFFFF_FFFF {
            proof {
                if all_dec_digits(s.spec_bytes()) {
                    lemma_dec_value_prefix_le(s.spec_bytes(), i + 1);
                }
            }
            return None;
        }
        acc = next;
        i += 1;
    }
    proof {
        assert(s.spec_bytes().subrange(0, n as int) =~= s.spec_bytes());
    }
    Some(acc as u32)
}

/// What one invocation should do, decided from the argument list alone.
#[derive(Debug)]
pub enum RunPlan {
    /// Too few arguments: print the usage line and stop.
    Usage,
    /// Input and output paths are identical: refuse to run, so no file is
    /// ever written over the input.
    SamePath,
    /// An explicit dimension argument is not an in-range decimal number.
    BadDimension,
    /// Run the pipeline with these paths and requested dimensions (zero
    /// meaning "derive from the source").
    Run { model: String, input: String, output: String, requested_w: u32, requested_h: u32 },
}

/// Decide what an invocation does: fewer than four arguments (program name,
/// model, input, output) prints usage; identical input and output paths
/// refuse to run; explicit dimensions, when present as a fifth and sixth
/// argument, must be in-range decimal numbers.
pub fn plan(args: &Vec<String>) -> (r: RunPlan)
    ensures
        r is Usage <==> args.len() < 4,
        args.len() >= 4 ==> ((r is SamePath) <==> args[2]@ == args[3]@),
        args.len() >= 4 && args[2]@ != args[3]@ && args.len() < 6 ==> (r matches RunPlan::Run {
            model,
            input,
            output,
            requested_w,
            requested_h,
        } && model@ == args[1]@ && input@ == args[2]@ && output@ == args[3]@ && requested_w == 0
            && requested_h == 0),
        args.len() >= 6 && args[2]@ != args[3]@ && parses_u32(encode_utf8(args[4]@)) && parses_u32(
            encode_utf8(args[5]@),
        ) ==> (r matches RunPlan::Run {
            model,
            input,
            output,
            requested_w,
            requested_h,
        } && model@ == args[1]@ && input@ == args[2]@ && output@ == args[3]@ && requested_w
            == dec_value(encode_utf8(args[4]@)) && requested_h == dec_value(encode_utf8(args[5]@))),
        args.len() >= 6 && args[2]@ != args[3]@ && !(parses_u32(encode_utf8(args[4]@))
            && parses_u32(encode_utf8(args[5]@))) ==> r is BadDimension,
{
    if args.len() < 4 {
        return RunPlan::Usage;
    }
    if args[2] == args[3] {
        return RunPlan::SamePath;
    }
    let mut requested_w: u32 = 0;
    let mut requested_h: u32 = 0;
    if args.len() >= 6 {
        let pw = parse_u32(args[4].as_str());
        let ph = parse_u32(args[5].as_str());
        match (pw, ph) {
            (Some(w), Some(h)) => {
                requested_w = w;
                requested_h = h;
            },
            _ => {
                return RunPlan::BadDimension;
            },
        }
    }
    RunPlan::Run {
        model: args[1].clone(),
        input: args[2].clone(),
        output: args[3].clone(),
        requested_w,
        requested_h,
    }
}

} // verus!
