//! Password hashes in the PHC format: what it takes to verify one.

use crate::text::{
    begins_with, chars_of, decimal, find_char, is_digit, law_decimal_round_trip,
    lemma_index_of_char, lemma_split_head, lemma_split_whole, number, parse_u32, split, split_on,
    starts_with, texts,
};
use vstd::prelude::*;
use vstd::slice::slice_subrange;
use vstd::string::*;

verus! {

/// The most lanes that Argon2 works with.
pub const MAX_LANES: u32 = 0xff_ffff;

/// The size of a block of Argon2's memory, in bytes.
pub const BLOCK_BYTES: u64 = 1024;

/// The field of a password hash that holds its parameters: the one behind the
/// algorithm, or behind the version where it has one.
pub open spec fn params_field(hashed: Seq<char>) -> Seq<char> {
    let fields = split_on(hashed, '$');
    let at: int = if fields.len() > 2 && begins_with(fields[2], "v="@) && !fields[2].contains(',') {
        3
    } else {
        2
    };
    if at < fields.len() {
        fields[at]
    } else {
        Seq::empty()
    }
}

/// The value of the last of some parameters that bears a name of one letter:
/// nothing where there is none, or where it is no number of thirty-two bits.
pub open spec fn last_value(params: Seq<Seq<char>>, name: char) -> Option<nat>
    decreases params.len(),
{
    if params.len() == 0 {
        None
    } else {
        let p = params.last();
        if p.len() >= 2 && p[0] == name && p[1] == '=' {
            number(p.skip(2), 0xffff_ffff)
        } else {
            last_value(params.drop_last(), name)
        }
    }
}

/// The value of a parameter of a password hash.
pub open spec fn param_of(hashed: Seq<char>, name: char) -> Option<nat> {
    last_value(split_on(params_field(hashed), ','), name)
}

/// A password hash asks for more lanes than Argon2 works with.
pub open spec fn too_many_lanes(hashed: Seq<char>) -> bool {
    param_of(hashed, 'p') matches Some(p) && p > MAX_LANES
}

/// A password hash asks for more memory than the machine can address.
pub open spec fn too_much_memory(hashed: Seq<char>) -> bool {
    param_of(hashed, 'm') matches Some(m) && m * BLOCK_BYTES > isize::MAX
}

/// Argon2 can be asked whether a password hash accepts a password.
pub open spec fn is_workable(hashed: Seq<char>) -> bool {
    !too_many_lanes(hashed) && !too_much_memory(hashed)
}

fn find_params(hashed: &str) -> (r: Vec<char>)
    ensures
        r@ == params_field(hashed@),
{
    let cs = chars_of(hashed);
    let fields = split(cs.as_slice(), '$');
    let ghost views = split_on(hashed@, '$');
    assert(texts(fields@) == views);
    assert(forall|k: int| 0 <= k < views.len() ==> #[trigger] views[k] == fields@[k]@);
    let mut at: usize = 2;
    if fields.len() > 2 {
        proof {
            lemma_index_of_char(fields@[2]@, ',');
        }
        let comma: usize = find_char(fields[2].as_slice(), ',');
        if starts_with(fields[2].as_slice(), "v=") && comma >= fields[2].len() {
            at = 3;
        }
    }
    if at < fields.len() {
        let mut r: Vec<char> = Vec::new();
        let field = &fields[at];
        let mut i: usize = 0;
        while i < field.len()
            invariant
                i <= field@.len(),
                r@ == field@.take(i as int),
            decreases field@.len() - i,
        {
            r.push(field[i]);
            assert(field@.take(i as int + 1) =~= field@.take(i as int).push(field@[i as int]));
            i += 1;
        }
        assert(field@.take(i as int) =~= field@);
        r
    } else {
        let r: Vec<char> = Vec::new();
        assert(r@ =~= Seq::<char>::empty());
        r
    }
}

fn find_value(params: &Vec<Vec<char>>, name: char) -> (r: Option<u32>)
    ensures
        match r {
            Some(n) => last_value(texts(params@), name) == Some(n as nat),
            None => last_value(texts(params@), name) is None,
        },
{
    let mut i: usize = params.len();
    let ghost views = texts(params@);
    assert(views.take(i as int) =~= views);
    while i > 0
        invariant
            i <= params@.len(),
            views == texts(params@),
            last_value(views, name) == last_value(views.take(i as int), name),
        decreases i,
    {
        i -= 1;
        let p = &params[i];
        let ghost rest = views.take(i as int + 1);
        assert(rest.last() == p@);
        assert(rest.drop_last() =~= views.take(i as int));
        if p.len() >= 2 && p[0] == name && p[1] == '=' {
            let tail = slice_subrange(p.as_slice(), 2, p.len());
            assert(tail@ =~= p@.skip(2));
            return parse_u32(tail);
        }
    }
    None
}

/// Whether Argon2 can be asked whether a password hash accepts a password.
pub fn workable(hashed: &str) -> (r: bool)
    ensures
        r == is_workable(hashed@),
{
    let field = find_params(hashed);
    let params = split(field.as_slice(), ',');
    let few = match find_value(&params, 'p') {
        Some(p) => p <= MAX_LANES,
        None => true,
    };
    let small = match find_value(&params, 'm') {
        Some(m) => m as u64 * BLOCK_BYTES <= isize::MAX as u64,
        None => true,
    };
    few && small
}

/// The parameters of a hash, as it is written.
pub open spec fn params_text(m: nat, t: nat, p: nat) -> Seq<char> {
    "m="@ + decimal(m) + ",t="@ + decimal(t) + ",p="@ + decimal(p)
}

/// A hash as it is written: its name, its version, its parameters, and its salt and value.
pub open spec fn hash_text(m: nat, t: nat, p: nat, rest: Seq<char>) -> Seq<char> {
    "$argon2id$v=19$"@ + params_text(m, t, p) + "$"@ + rest
}

proof fn lemma_digits_apart(n: nat)
    ensures
        !decimal(n).contains('$'),
        !decimal(n).contains(','),
{
    law_decimal_round_trip(n, n);
    let d = decimal(n);
    assert forall|k: int| 0 <= k < d.len() implies d[k] != '$' && d[k] != ',' by {
        assert(is_digit(d[k]));
    }
}

proof fn lemma_params_split(m: nat, t: nat, p: nat)
    ensures
        split_on(params_text(m, t, p), ',') == seq![
            seq!['m', '='] + decimal(m),
            seq!['t', '='] + decimal(t),
            seq!['p', '='] + decimal(p),
        ],
        !params_text(m, t, p).contains('$'),
{
    reveal_strlit("m=");
    reveal_strlit(",t=");
    reveal_strlit(",p=");
    lemma_digits_apart(m);
    lemma_digits_apart(t);
    lemma_digits_apart(p);
    let a = seq!['m', '='] + decimal(m);
    let b = seq!['t', '='] + decimal(t);
    let c = seq!['p', '='] + decimal(p);
    let whole = params_text(m, t, p);
    let tail = b + seq![','] + c;
    assert(whole =~= a + seq![','] + tail);
    assert forall|k: int| 0 <= k < a.len() implies a[k] != ',' && a[k] != '$' by {
        if k >= 2 {
            assert(decimal(m).contains(decimal(m)[k - 2]));
            assert(a[k] == decimal(m)[k - 2]);
        }
    }
    assert forall|k: int| 0 <= k < b.len() implies b[k] != ',' && b[k] != '$' by {
        if k >= 2 {
            assert(decimal(t).contains(decimal(t)[k - 2]));
            assert(b[k] == decimal(t)[k - 2]);
        }
    }
    assert forall|k: int| 0 <= k < c.len() implies c[k] != ',' && c[k] != '$' by {
        if k >= 2 {
            assert(decimal(p).contains(decimal(p)[k - 2]));
            assert(c[k] == decimal(p)[k - 2]);
        }
    }
    lemma_split_head(a, ',', tail);
    lemma_split_head(b, ',', c);
    lemma_split_whole(c, ',');
    assert(seq![a] + (seq![b] + seq![c]) =~= seq![a, b, c]);
    assert forall|k: int| 0 <= k < whole.len() implies whole[k] != '$' by {
        if k < a.len() {
            assert(whole[k] == a[k]);
        } else if k == a.len() {
        } else if k < a.len() + 1 + b.len() {
            assert(whole[k] == b[k - a.len() - 1]);
        } else if k == a.len() + 1 + b.len() {
        } else {
            assert(whole[k] == c[k - a.len() - b.len() - 2]);
        }
    }
}

proof fn lemma_params_field(m: nat, t: nat, p: nat, rest: Seq<char>)
    ensures
        params_field(hash_text(m, t, p, rest)) == params_text(m, t, p),
{
    let hashed = hash_text(m, t, p, rest);
    let params = params_text(m, t, p);
    let none = Seq::<char>::empty();
    let name = seq!['a', 'r', 'g', 'o', 'n', '2', 'i', 'd'];
    let version = seq!['v', '=', '1', '9'];
    lemma_params_split(m, t, p);
    let s3 = params + seq!['$'] + rest;
    let s2 = version + seq!['$'] + s3;
    let s1 = name + seq!['$'] + s2;
    assert(hashed == none + seq!['$'] + s1) by {
        reveal_strlit("$argon2id$v=19$");
        reveal_strlit("$");
        assert("$argon2id$v=19$"@ =~= seq!['$'] + name + seq!['$'] + version + seq!['$']);
        assert(hashed =~= none + seq!['$'] + s1);
    }
    lemma_split_head(none, '$', s1);
    lemma_split_head(name, '$', s2);
    lemma_split_head(version, '$', s3);
    lemma_split_head(params, '$', rest);
    let fields = split_on(hashed, '$');
    assert(fields[2] == version);
    assert(fields[3] == params);
    assert(begins_with(version, "v="@)) by {
        reveal_strlit("v=");
        assert(version.subrange(0, 2) =~= "v="@);
    }
    assert(!version.contains(','));
}

proof fn lemma_last_values(a: Seq<char>, b: Seq<char>, c: Seq<char>)
    ensures
        ({
            let parts = seq![seq!['m', '='] + a, seq!['t', '='] + b, seq!['p', '='] + c];
            &&& last_value(parts, 'm') == number(a, 0xffff_ffff)
            &&& last_value(parts, 't') == number(b, 0xffff_ffff)
            &&& last_value(parts, 'p') == number(c, 0xffff_ffff)
        }),
{
    let parts = seq![seq!['m', '='] + a, seq!['t', '='] + b, seq!['p', '='] + c];
    let two = parts.drop_last();
    let one = two.drop_last();
    assert(parts.last() == seq!['p', '='] + c);
    assert(two.last() == seq!['t', '='] + b);
    assert(one.last() == seq!['m', '='] + a);
    assert((seq!['p', '='] + c).skip(2) =~= c);
    assert((seq!['t', '='] + b).skip(2) =~= b);
    assert((seq!['m', '='] + a).skip(2) =~= a);
    assert(last_value(one, 'm') == number(a, 0xffff_ffff));
    assert(last_value(two, 'm') == last_value(one, 'm'));
    assert(last_value(two, 't') == number(b, 0xffff_ffff));
}

/// The lanes and the memory of a hash are those that it is written with, whatever its
/// salt and value are, and it can be worked with exactly where both are within bounds.
pub proof fn law_hash_parameters_are_read(m: u32, t: u32, p: u32, rest: Seq<char>)
    ensures
        ({
            let hashed = hash_text(m as nat, t as nat, p as nat, rest);
            &&& param_of(hashed, 'm') == Some(m as nat)
            &&& param_of(hashed, 't') == Some(t as nat)
            &&& param_of(hashed, 'p') == Some(p as nat)
            &&& is_workable(hashed) <==> p <= 0xff_ffff && m * 1024 <= isize::MAX
        }),
{
    lemma_params_field(m as nat, t as nat, p as nat, rest);
    lemma_params_split(m as nat, t as nat, p as nat);
    lemma_last_values(decimal(m as nat), decimal(t as nat), decimal(p as nat));
    law_decimal_round_trip(m as nat, 0xffff_ffff);
    law_decimal_round_trip(t as nat, 0xffff_ffff);
    law_decimal_round_trip(p as nat, 0xffff_ffff);
}

} // verus!
