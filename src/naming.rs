//! Names of the child directories to create: each requested name, repeated a
//! given number of times, the first copy bare and the later ones suffixed
//! with `_<index>`.

use vstd::prelude::*;

verus! {

/// The decimal digit for `d`, for `d < 10`.
pub open spec fn digit_char(d: nat) -> char
    recommends
        d < 10,
{
    seq!['0', '1', '2', '3', '4', '5', '6', '7', '8', '9'][d as int]
}

/// Decimal notation of `n`, most significant digit first, with no leading
/// zeros.
pub open spec fn decimal_spec(n: nat) -> Seq<char>
    decreases n,
{
    if n < 10 {
        seq![digit_char(n)]
    } else {
        decimal_spec(n / 10) + seq![digit_char(n % 10)]
    }
}

/// The name of the `k`-th copy (counting from 1) of the directory `name`:
/// the bare name for the first copy, `name_k` for the others.
pub open spec fn indexed_name(name: Seq<char>, k: nat) -> Seq<char> {
    if k <= 1 {
        name
    } else {
        name + seq!['_'] + decimal_spec(k)
    }
}

/// All `count` copies of `name`, in order.
pub open spec fn copies_spec(name: Seq<char>, count: nat) -> Seq<Seq<char>> {
    Seq::new(count, |j: int| indexed_name(name, (j + 1) as nat))
}

/// The full list of child names: the copies of each requested name, the
/// names taken in the order given.
pub open spec fn plan_spec(names: Seq<Seq<char>>, count: nat) -> Seq<Seq<char>>
    decreases names.len(),
{
    if names.len() == 0 {
        seq![]
    } else {
        plan_spec(names.drop_last(), count) + copies_spec(names.last(), count)
    }
}

fn digit_str(d: u64) -> (r: &'static str)
    requires
        d < 10,
    ensures
        r@ == seq![digit_char(d as nat)],
{
    proof {
        reveal_strlit("0");
        reveal_strlit("1");
        reveal_strlit("2");
        reveal_strlit("3");
        reveal_strlit("4");
        reveal_strlit("5");
        reveal_strlit("6");
        reveal_strlit("7");
        reveal_strlit("8");
        reveal_strlit("9");
    }
    if d == 0 {
        "0"
    } else if d == 1 {
        "1"
    } else if d == 2 {
        "2"
    } else if d == 3 {
        "3"
    } else if d == 4 {
        "4"
    } else if d == 5 {
        "5"
    } else if d == 6 {
        "6"
    } else if d == 7 {
        "7"
    } else if d == 8 {
        "8"
    } else {
        "9"
    }
}

/// Decimal notation of `n`.
pub fn decimal(n: u64) -> (r: String)
    ensures
        r@ == decimal_spec(n as nat),
{
    let mut m: u64 = n;
    let mut acc = String::new();
    while m >= 10
        invariant
            decimal_spec(n as nat) == decimal_spec(m as nat) + acc@,
        decreases m,
    {
        let d = digit_str(m % 10);
        let ghost old_acc = acc@;
        acc = String::from_str(d).concat(acc.as_str());
        assert(decimal_spec(m as nat) == decimal_spec((m / 10) as nat) + seq![
            digit_char((m % 10) as nat),
        ]);
        assert(decimal_spec(m as nat) + old_acc =~= decimal_spec((m / 10) as nat) + acc@);
        m = m / 10;
    }
    let d = digit_str(m);
    let r = String::from_str(d).concat(acc.as_str());
    assert(r@ =~= decimal_spec(m as nat) + acc@);
    r
}

/// The name of the `k`-th copy (counting from 1) of the directory `name`.
pub fn copy_name(name: &String, k: u64) -> (r: String)
    ensures
        r@ == indexed_name(name@, k as nat),
{
    if k <= 1 {
        name.clone()
    } else {
        let suffix = decimal(k);
        proof {
            reveal_strlit("_");
        }
        let r = name.clone().concat("_").concat(suffix.as_str());
        assert(r@ =~= name@ + seq!['_'] + decimal_spec(k as nat));
        r
    }
}

/// Every child directory name to create, in order: for each of `names`,
/// `count` copies named by `copy_name`.
pub fn plan_names(names: &Vec<String>, count: u64) -> (r: Vec<String>)
    ensures
        r.deep_view() == plan_spec(names.deep_view(), count as nat),
{
    let mut out: Vec<String> = Vec::new();
    let mut i: usize = 0;
    while i < names.len()
        invariant
            i <= names.len(),
            out.deep_view() == plan_spec(names.deep_view().take(i as int), count as nat),
        decreases names.len() - i,
    {
        let ghost before = out.deep_view();
        let mut j: u64 = 0;
        while j < count
            invariant
                i < names.len(),
                j <= count,
                out.deep_view() == before + copies_spec(names[i as int]@, count as nat).take(
                    j as int,
                ),
            decreases count - j,
        {
            let name = copy_name(&names[i], j + 1);
            let ghost prev = out.deep_view();
            let ghost name_view = name@;
            out.push(name);
            assert(out.deep_view() =~= prev.push(name_view));
            assert(out.deep_view() =~= before + copies_spec(names[i as int]@, count as nat).take(
                (j + 1) as int,
            ));
            j = j + 1;
        }
        proof {
            let taken = names.deep_view().take((i + 1) as int);
            assert(taken.drop_last() =~= names.deep_view().take(i as int));
            assert(taken.last() == names[i as int]@);
            assert(copies_spec(names[i as int]@, count as nat).take(count as int) =~= copies_spec(
                names[i as int]@,
                count as nat,
            ));
        }
        i = i + 1;
    }
    assert(names.deep_view().take(names.len() as int) =~= names.deep_view());
    out
}

} // verus!
