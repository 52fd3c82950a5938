use vstd::prelude::*;

verus! {

/// The decimal digit character for `d`, where `d < 10`.
pub open spec fn digit_char(d: nat) -> char {
    if d == 0 {
        '0'
    } else if d == 1 {
        '1'
    } else if d == 2 {
        '2'
    } else if d == 3 {
        '3'
    } else if d == 4 {
        '4'
    } else if d == 5 {
        '5'
    } else if d == 6 {
        '6'
    } else if d == 7 {
        '7'
    } else if d == 8 {
        '8'
    } else {
        '9'
    }
}

/// The decimal rendering of `n`, without sign or leading zeros.
pub open spec fn decimal(n: nat) -> Seq<char>
    decreases n,
{
    if n < 10 {
        seq![digit_char(n)]
    } else {
        decimal(n / 10) + seq![digit_char(n % 10)]
    }
}

/// The indices rendered in decimal and joined by `/`.
pub open spec fn joined(indices: Seq<u32>) -> Seq<char>
    decreases indices.len(),
{
    if indices.len() == 0 {
        Seq::empty()
    } else if indices.len() == 1 {
        decimal(indices[0] as nat)
    } else {
        joined(indices.drop_last()) + seq!['/'] + decimal(indices.last() as nat)
    }
}

/// The textual name of the interface at `indices` under `prefix`.
pub open spec fn interface_name(prefix: Seq<char>, indices: Seq<u32>) -> Seq<char> {
    prefix + joined(indices)
}

/// Whether `c` is a decimal digit.
pub open spec fn is_digit(c: char) -> bool {
    '0' <= c <= '9'
}

/// The value of the decimal digit `c`.
pub open spec fn digit_value(c: char) -> nat {
    if c == '1' {
        1
    } else if c == '2' {
        2
    } else if c == '3' {
        3
    } else if c == '4' {
        4
    } else if c == '5' {
        5
    } else if c == '6' {
        6
    } else if c == '7' {
        7
    } else if c == '8' {
        8
    } else if c == '9' {
        9
    } else {
        0
    }
}

/// The value of the decimal numeral `s`.
pub open spec fn decimal_value(s: Seq<char>) -> nat
    decreases s.len(),
{
    if s.len() == 0 {
        0
    } else {
        10 * decimal_value(s.drop_last()) + digit_value(s.last())
    }
}

/// Whether `s` is a decimal numeral in canonical form: digits only, at least
/// one, and no leading zero unless it is `0` itself.
pub open spec fn canonical_decimal(s: Seq<char>) -> bool {
    &&& s.len() >= 1
    &&& forall|i: int| 0 <= i < s.len() ==> is_digit(#[trigger] s[i])
    &&& (s.len() == 1 || s[0] != '0')
}

/// The pieces of `s` between the `/` separators, in order; there is always
/// one more piece than there are separators.
pub open spec fn pieces(s: Seq<char>) -> Seq<Seq<char>>
    decreases s.len(),
{
    if s.len() == 0 {
        seq![Seq::empty()]
    } else if s.last() == '/' {
        pieces(s.drop_last()).push(Seq::empty())
    } else {
        let p = pieces(s.drop_last());
        p.update(p.len() - 1, p.last().push(s.last()))
    }
}

proof fn lemma_decimal_digits(n: nat)
    ensures
        canonical_decimal(decimal(n)),
        decimal_value(decimal(n)) == n,
        n >= 1 ==> decimal(n)[0] != '0',
    decreases n,
{
    let d = decimal(n);
    if n < 10 {
        assert(d.drop_last() =~= Seq::<char>::empty());
        assert(digit_value(digit_char(n)) == n);
        assert(decimal_value(Seq::<char>::empty()) == 0);
        assert(decimal_value(d) == digit_value(d.last()));
    } else {
        assert(digit_value(digit_char(n % 10)) == n % 10);
        let h = decimal(n / 10);
        lemma_decimal_digits(n / 10);
        assert(d.drop_last() =~= h);
        assert(d[0] == h[0]);
        assert forall|i: int| 0 <= i < d.len() implies is_digit(#[trigger] d[i]) by {
            if i < h.len() {
                assert(d[i] == h[i]);
            }
        }
        assert(10 * (n / 10) + n % 10 == n) by (nonlinear_arith);
        assert(decimal_value(d) == 10 * decimal_value(h) + digit_value(d.last()));
    }
}

proof fn lemma_pieces_single(b: Seq<char>)
    requires
        forall|i: int| 0 <= i < b.len() ==> b[i] != '/',
    ensures
        pieces(b) == seq![b],
    decreases b.len(),
{
    if b.len() > 0 {
        lemma_pieces_single(b.drop_last());
        assert(b.drop_last().push(b.last()) =~= b);
        assert(seq![b.drop_last()].update(0, b) =~= seq![b]);
    } else {
        assert(b =~= Seq::<char>::empty());
    }
}

proof fn lemma_pieces_after_separator(a: Seq<char>, b: Seq<char>)
    requires
        forall|i: int| 0 <= i < b.len() ==> b[i] != '/',
    ensures
        pieces(a + seq!['/'] + b) == pieces(a).push(b),
    decreases b.len(),
{
    let s = a + seq!['/'] + b;
    if b.len() == 0 {
        assert(s.drop_last() =~= a);
        assert(b =~= Seq::<char>::empty());
    } else {
        lemma_pieces_after_separator(a, b.drop_last());
        assert(s.drop_last() =~= a + seq!['/'] + b.drop_last());
        assert(b.drop_last().push(b.last()) =~= b);
        assert(pieces(a).push(b.drop_last()).update(pieces(a).len() as int, b) =~= pieces(a).push(
            b,
        ));
    }
}

proof fn lemma_pieces_joined(indices: Seq<u32>)
    requires
        indices.len() >= 1,
    ensures
        pieces(joined(indices)) == indices.map_values(|i: u32| decimal(i as nat)),
    decreases indices.len(),
{
    lemma_decimal_digits(indices.last() as nat);
    let last = decimal(indices.last() as nat);
    assert forall|i: int| 0 <= i < last.len() implies last[i] != '/' by {
        assert(is_digit(last[i]));
    }
    if indices.len() == 1 {
        lemma_pieces_single(last);
        assert(indices.map_values(|i: u32| decimal(i as nat)) =~= seq![last]);
    } else {
        lemma_pieces_joined(indices.drop_last());
        lemma_pieces_after_separator(joined(indices.drop_last()), last);
        assert(indices.map_values(|i: u32| decimal(i as nat)) =~= indices.drop_last().map_values(
            |i: u32| decimal(i as nat),
        ).push(last));
    }
}

/// The name of an interface with at least one index reads back as its indices:
/// it starts with the prefix, and the rest splits at `/` into exactly one
/// piece per index, each the canonical decimal numeral of that index.
pub proof fn interface_name_round_trip(prefix: Seq<char>, indices: Seq<u32>)
    requires
        indices.len() >= 1,
    ensures
        interface_name(prefix, indices).take(prefix.len() as int) == prefix,
        pieces(interface_name(prefix, indices).skip(prefix.len() as int)).len() == indices.len(),
        forall|i: int|
            0 <= i < indices.len() ==> {
                let piece = #[trigger] pieces(interface_name(prefix, indices).skip(
                    prefix.len() as int,
                ))[i];
                canonical_decimal(piece) && decimal_value(piece) == indices[i]
            },
{
    let name = interface_name(prefix, indices);
    assert(name.take(prefix.len() as int) =~= prefix);
    assert(name.skip(prefix.len() as int) =~= joined(indices));
    lemma_pieces_joined(indices);
    assert forall|i: int| 0 <= i < indices.len() implies {
        let piece = #[trigger] pieces(name.skip(prefix.len() as int))[i];
        canonical_decimal(piece) && decimal_value(piece) == indices[i]
    } by {
        lemma_decimal_digits(indices[i] as nat);
    }
}

/// A device-local interface, identified by its textual name.
pub struct Interface {
    name: String,
}

impl View for Interface {
    type V = Seq<char>;

    closed spec fn view(&self) -> Seq<char> {
        self.name@
    }
}

impl Interface {
    /// Create a new interface with a name only.
    pub fn new(name: String) -> (r: Interface)
        ensures
            r@ == name@,
    {
        Interface { name }
    }

    /// The name of the interface.
    pub fn name(&self) -> (r: &str)
        ensures
            r@ == self@,
    {
        self.name.as_str()
    }
}

fn digit_str(d: u32) -> (r: &'static str)
    requires
        d < 10,
    ensures
        r@ == seq![digit_char(d as nat)],
{
    if d == 0 {
        proof { reveal_strlit("0"); }
        "0"
    } else if d == 1 {
        proof { reveal_strlit("1"); }
        "1"
    } else if d == 2 {
        proof { reveal_strlit("2"); }
        "2"
    } else if d == 3 {
        proof { reveal_strlit("3"); }
        "3"
    } else if d == 4 {
        proof { reveal_strlit("4"); }
        "4"
    } else if d == 5 {
        proof { reveal_strlit("5"); }
        "5"
    } else if d == 6 {
        proof { reveal_strlit("6"); }
        "6"
    } else if d == 7 {
        proof { reveal_strlit("7"); }
        "7"
    } else if d == 8 {
        proof { reveal_strlit("8"); }
        "8"
    } else {
        proof { reveal_strlit("9"); }
        "9"
    }
}

/// Appends the decimal rendering of `n` to `s`.
fn append_decimal(s: String, n: u32) -> (r: String)
    ensures
        r@ == s@ + decimal(n as nat),
    decreases n,
{
    let head = if n >= 10 {
        append_decimal(s, n / 10)
    } else {
        s
    };
    let r = head.concat(digit_str(n % 10));
    proof {
        if n >= 10 {
            assert(s@ + decimal(n as nat) =~= s@ + decimal((n / 10) as nat) + seq![
                digit_char((n % 10) as nat),
            ]);
        }
    }
    r
}

/// Builds the interface whose name is `prefix` followed by `indices` in decimal,
/// joined by `/`; with no indices the name is the bare prefix.
pub fn make_interface(prefix: &str, indices: &[u32]) -> (r: Interface)
    ensures
        r@ == interface_name(prefix@, indices@),
        indices@.len() == 0 ==> r@ == prefix@,
{
    let mut s = prefix.to_owned();
    let mut i: usize = 0;
    while i < indices.len()
        invariant
            0 <= i <= indices@.len(),
            s@ == prefix@ + joined(indices@.take(i as int)),
        decreases indices@.len() - i,
    {
        let ghost next = indices@.take(i as int + 1);
        assert(next.drop_last() =~= indices@.take(i as int));
        if i > 0 {
            proof { reveal_strlit("/"); }
            s = s.concat("/");
        }
        s = append_decimal(s, indices[i]);
        i = i + 1;
        proof {
            if i == 1 {
                assert(joined(indices@.take(0)) =~= Seq::<char>::empty());
            }
        }
        assert(s@ =~= prefix@ + joined(next));
    }
    assert(indices@.take(indices@.len() as int) =~= indices@);
    Interface { name: s }
}

} // verus!
