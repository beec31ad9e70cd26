use vstd::prelude::*;

verus! {

#[verifier::external_type_specification]
#[verifier::external_body]
pub struct ExArg(clap::Arg);

/// Relies on `str::chars` collected into a `Vec`: the characters of `s` in order.
#[verifier::external_body]
fn chars_of(s: &str) -> (r: Vec<char>)
    ensures
        r@ == s@,
{
    s.chars().collect()
}

/// Relies on `String: FromIterator<char>`: the string of the characters in order.
#[verifier::external_body]
fn string_of(v: &Vec<char>) -> (r: String)
    ensures
        r@ == v@,
{
    v.iter().collect()
}

/// Relies on clap's `Arg::get_value_parser` and the `Debug` form of its
/// `type_id`, which names the type of the parsed value. What it prints
/// depends on how clap was built, so nothing is stated of it.
#[verifier::external_body]
fn value_type_debug(arg: &clap::Arg) -> String {
    format!("{:?}", arg.get_value_parser().type_id())
}

/// The part of `s` after its last `c`; all of `s` where it holds no `c`.
pub open spec fn after_last(s: Seq<char>, c: char) -> Seq<char>
    decreases s.len(),
{
    if s.len() == 0 {
        s
    } else if s.last() == c {
        seq![]
    } else {
        after_last(s.drop_last(), c).push(s.last())
    }
}

/// The index just past the last `c` in `s`, or 0.
fn start_after_last(s: &Vec<char>, c: char) -> (k: usize)
    ensures
        k <= s@.len(),
        s@.subrange(k as int, s@.len() as int) == after_last(s@, c),
{
    let mut k: usize = 0;
    let mut i: usize = 0;
    assert(s@.subrange(0, 0) =~= Seq::<char>::empty());
    while i < s.len()
        invariant
            k <= i <= s@.len(),
            s@.subrange(k as int, i as int) == after_last(s@.subrange(0, i as int), c),
        decreases s@.len() - i,
    {
        let ghost prefix = s@.subrange(0, i + 1);
        assert(prefix.drop_last() =~= s@.subrange(0, i as int));
        if s[i] == c {
            k = i + 1;
            assert(s@.subrange(k as int, i + 1) =~= Seq::<char>::empty());
        } else {
            assert(s@.subrange(k as int, i + 1) =~= s@.subrange(k as int, i as int).push(s@[i as int]));
        }
        i = i + 1;
    }
    assert(s@.subrange(0, i as int) =~= s@);
    k
}

fn copy_from(s: &Vec<char>, k: usize) -> (r: Vec<char>)
    requires
        k <= s@.len(),
    ensures
        r@ == s@.subrange(k as int, s@.len() as int),
{
    let mut r: Vec<char> = Vec::new();
    let mut i: usize = k;
    while i < s.len()
        invariant
            k <= i <= s@.len(),
            r@ =~= s@.subrange(k as int, i as int),
        decreases s@.len() - i,
    {
        r.push(s[i]);
        i = i + 1;
    }
    r
}

/// The last segment of a path such as `my_crate::module::Git`: what follows
/// the last colon, or the whole name where it holds none.
pub fn short_type_name(long: &str) -> (r: String)
    ensures
        r@ == after_last(long@, ':'),
{
    let cs = chars_of(long);
    let k = start_after_last(&cs, ':');
    let tail = copy_from(&cs, k);
    string_of(&tail)
}

/// `s` without its parentheses.
pub open spec fn unparenthesized(s: Seq<char>) -> Seq<char> {
    s.filter(|ch: char| ch != '(' && ch != ')')
}

/// Reads `s` from index `i`, where `done` is the output so far and `cur`
/// the current item since its last colon: items are separated by `", "`,
/// each item keeps only what follows its last `:`, and the items are written
/// back separated by `,`.
pub open spec fn short_items(s: Seq<char>, i: nat, done: Seq<char>, cur: Seq<char>) -> Seq<char>
    decreases s.len() - i,
{
    if i >= s.len() {
        done + cur
    } else if s[i as int] == ',' && i + 1 < s.len() && s[i + 1 as int] == ' ' {
        short_items(s, i + 2, done + cur.push(','), seq![])
    } else if s[i as int] == ':' {
        short_items(s, i + 1, done, seq![])
    } else {
        short_items(s, i + 1, done, cur.push(s[i as int]))
    }
}

/// The type hint for a `Debug` form of a type such as
/// `(alloc::string::String, alloc::string::String)`: `<String,String>`.
pub open spec fn type_hint_of(debug: Seq<char>) -> Seq<char> {
    seq!['<'] + short_items(unparenthesized(debug), 0, seq![], seq![]) + seq!['>']
}

fn strip_parens(s: &Vec<char>) -> (r: Vec<char>)
    ensures
        r@ == unparenthesized(s@),
{
    let mut r: Vec<char> = Vec::new();
    let mut i: usize = 0;
    assert(s@.subrange(0, 0) =~= Seq::<char>::empty());
    while i < s.len()
        invariant
            i <= s@.len(),
            r@ == unparenthesized(s@.subrange(0, i as int)),
        decreases s@.len() - i,
    {
        let ghost prefix = s@.subrange(0, i + 1);
        assert(prefix.drop_last() =~= s@.subrange(0, i as int));
        proof {
            reveal(Seq::filter);
        }
        if s[i] != '(' && s[i] != ')' {
            r.push(s[i]);
        }
        i = i + 1;
    }
    assert(s@.subrange(0, i as int) =~= s@);
    r
}

fn push_all(dst: &mut Vec<char>, src: &Vec<char>)
    ensures
        final(dst)@ == old(dst)@ + src@,
{
    let mut j: usize = 0;
    while j < src.len()
        invariant
            j <= src@.len(),
            dst@ =~= old(dst)@ + src@.subrange(0, j as int),
        decreases src@.len() - j,
    {
        dst.push(src[j]);
        j = j + 1;
    }
    assert(src@.subrange(0, j as int) =~= src@);
}

/// The type hint, such as `<String,String>`, for the `Debug` form of a
/// value type.
pub fn type_hint(debug: &str) -> (r: String)
    ensures
        r@ == type_hint_of(debug@),
{
    let cs = strip_parens(&chars_of(debug));
    let mut body: Vec<char> = Vec::new();
    let mut cur: Vec<char> = Vec::new();
    let mut i: usize = 0;
    while i < cs.len()
        invariant
            i <= cs@.len() + 1,
            short_items(cs@, 0, seq![], seq![]) == short_items(cs@, i as nat, body@, cur@),
        decreases cs@.len() + 1 - i,
    {
        if cs[i] == ',' && i + 1 < cs.len() && cs[i + 1] == ' ' {
            cur.push(',');
            push_all(&mut body, &cur);
            cur = Vec::new();
            assert(cur@ =~= Seq::<char>::empty());
            i = i + 2;
        } else if cs[i] == ':' {
            cur = Vec::new();
            assert(cur@ =~= Seq::<char>::empty());
            i = i + 1;
        } else {
            cur.push(cs[i]);
            i = i + 1;
        }
    }
    push_all(&mut body, &cur);
    let mut out: Vec<char> = Vec::new();
    out.push('<');
    push_all(&mut out, &body);
    out.push('>');
    assert(out@ =~= seq!['<'] + body@ + seq!['>']);
    string_of(&out)
}

/// The type hint of the value that clap parses for `arg`, such as
/// `<String,String>` for a pair of strings.
pub fn get_type_string(arg: &clap::Arg) -> (r: String)
    ensures
        exists|debug: Seq<char>| r@ == type_hint_of(debug),
{
    let debug = value_type_debug(arg);
    type_hint(debug.as_str())
}

} // verus!
