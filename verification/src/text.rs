//! Small verified text helpers used when rendering diagnostic messages.

use vstd::prelude::*;

verus! {

/// The decimal digit character for `n < 10`.
pub open spec fn spec_digit(n: nat) -> char {
    if n == 0 {
        '0'
    } else if n == 1 {
        '1'
    } else if n == 2 {
        '2'
    } else if n == 3 {
        '3'
    } else if n == 4 {
        '4'
    } else if n == 5 {
        '5'
    } else if n == 6 {
        '6'
    } else if n == 7 {
        '7'
    } else if n == 8 {
        '8'
    } else {
        '9'
    }
}

/// The decimal rendering of `n`, most significant digit first.
pub open spec fn spec_decimal(n: nat) -> Seq<char>
    decreases n,
{
    if n < 10 {
        seq![spec_digit(n)]
    } else {
        spec_decimal(n / 10) + seq![spec_digit(n % 10)]
    }
}

/// One decimal digit as a string slice.
fn digit_str(n: u64) -> (r: &'static str)
    requires
        n < 10,
    ensures
        r@ =~= seq![spec_digit(n as nat)],
{
    proof {
        reveal_strlit("0");
        reveal_strlit("1");
        reveal_strlit("2");
        reveal_strlit("3");
        reveal_strlit("4");
        reveal_strlit("5");
        reveal_strlit("6");
        reveal_strlit("7");
        reveal_strlit("8");
        reveal_strlit("9");
    }
    if n == 0 {
        "0"
    } else if n == 1 {
        "1"
    } else if n == 2 {
        "2"
    } else if n == 3 {
        "3"
    } else if n == 4 {
        "4"
    } else if n == 5 {
        "5"
    } else if n == 6 {
        "6"
    } else if n == 7 {
        "7"
    } else if n == 8 {
        "8"
    } else {
        "9"
    }
}

/// Renders `n` in decimal.
pub fn decimal_string(n: u64) -> (r: String)
    ensures
        r@ == spec_decimal(n as nat),
    decreases n,
{
    if n < 10 {
        digit_str(n).to_owned()
    } else {
        let high = decimal_string(n / 10);
        high.concat(digit_str(n % 10))
    }
}

/// The strings of `parts` joined by `sep`, in order.
pub open spec fn spec_join(parts: Seq<String>, sep: Seq<char>) -> Seq<char>
    decreases parts.len(),
{
    if parts.len() == 0 {
        Seq::empty()
    } else if parts.len() == 1 {
        parts[0]@
    } else {
        parts[0]@ + sep + spec_join(parts.skip(1), sep)
    }
}

/// Joins `parts` with `sep` between each pair of neighbours.
pub fn join(parts: &Vec<String>, sep: &str) -> (r: String)
    ensures
        r@ == spec_join(parts@, sep@),
{
    let mut out = String::new();
    if parts.len() == 0 {
        return out;
    }
    out.append(parts[0].as_str());
    proof {
        lemma_join_unfold(parts@, sep@);
    }
    let mut i: usize = 1;
    while i < parts.len()
        invariant
            1 <= i <= parts@.len(),
            spec_join(parts@, sep@) == out@ + spec_join_tail(parts@.skip(i as int), sep@),
        decreases parts.len() - i,
    {
        assert(parts@.skip(i as int)[0] == parts@[i as int]);
        assert(parts@.skip(i as int).skip(1) =~= parts@.skip(i + 1));
        let ghost prev = out@;
        out.append(sep);
        out.append(parts[i].as_str());
        assert(out@ + spec_join_tail(parts@.skip(i + 1), sep@) =~= prev + spec_join_tail(
            parts@.skip(i as int),
            sep@,
        ));
        i += 1;
    }
    assert(parts@.skip(i as int) =~= Seq::<String>::empty());
    assert(out@ + Seq::<char>::empty() =~= out@);
    out
}

/// The tail of a join: `sep` before every remaining part.
pub open spec fn spec_join_tail(parts: Seq<String>, sep: Seq<char>) -> Seq<char>
    decreases parts.len(),
{
    if parts.len() == 0 {
        Seq::empty()
    } else {
        sep + parts[0]@ + spec_join_tail(parts.skip(1), sep)
    }
}

/// Relates the two join shapes: a non-empty join is its head followed by the
/// separated tail.
proof fn lemma_join_unfold(parts: Seq<String>, sep: Seq<char>)
    requires
        parts.len() >= 1,
    ensures
        spec_join(parts, sep) == parts[0]@ + spec_join_tail(parts.skip(1), sep),
    decreases parts.len(),
{
    if parts.len() == 1 {
        assert(parts.skip(1) =~= Seq::<String>::empty());
        assert(parts[0]@ + Seq::<char>::empty() =~= parts[0]@);
    } else {
        lemma_join_unfold(parts.skip(1), sep);
        assert(parts.skip(1).skip(1) =~= parts.skip(2));
        assert(parts.skip(1)[0] == parts[1]);
        assert(parts[0]@ + (sep + parts[1]@ + spec_join_tail(parts.skip(2), sep)) =~= parts[0]@
            + sep + parts[1]@ + spec_join_tail(parts.skip(2), sep));
        assert(parts[0]@ + sep + spec_join(parts.skip(1), sep) =~= parts[0]@ + (sep + parts[1]@
            + spec_join_tail(parts.skip(2), sep)));
    }
}

} // verus!
