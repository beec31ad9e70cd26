use vstd::prelude::*;
use crate::schema::ArgDescriptor;

verus! {

/// The text of each string in `v`.
pub open spec fn texts(v: Seq<String>) -> Seq<Seq<char>> {
    v.map_values(|s: String| s@)
}

/// `--<id>=<value>`: a flag and its value in one token.
pub open spec fn flag_token(id: Seq<char>, value: Seq<char>) -> Seq<char> {
    seq!['-', '-'] + id + seq!['='] + value
}

/// The token that gives `value` to the argument `a` on a command line.
pub open spec fn value_token_of(a: ArgDescriptor, value: Seq<char>) -> Seq<char> {
    if a.positional {
        value
    } else {
        flag_token(a.id@, value)
    }
}

/// The values of `vs` with `d` between each two of them.
pub open spec fn joined(vs: Seq<Seq<char>>, d: Seq<char>) -> Seq<char>
    decreases vs.len(),
{
    if vs.len() == 0 {
        seq![]
    } else if vs.len() == 1 {
        vs[0]
    } else {
        joined(vs.drop_last(), d) + d + vs.last()
    }
}

/// The tokens of a repeated argument that was given the values `vs`: one
/// delimited token where the argument declares a delimiter, else one token
/// per value in the order of entry.
pub open spec fn repeated_tokens_of(a: ArgDescriptor, vs: Seq<Seq<char>>) -> Seq<Seq<char>> {
    if vs.len() == 0 {
        seq![]
    } else {
        match a.delimiter {
            Some(d) => seq![value_token_of(a, joined(vs, d@))],
            None => vs.map_values(|v: Seq<char>| value_token_of(a, v)),
        }
    }
}

/// The help text of the value prompt: the type hint (verbose sessions only)
/// and the declared help, separated by a colon.
pub open spec fn help_text_of(a: ArgDescriptor, verbose: bool) -> Seq<char> {
    let help = match a.help {
        Some(h) => h@,
        None => seq![],
    };
    if verbose {
        let hint = match a.type_hint {
            Some(t) => t@,
            None => seq![],
        };
        match a.help {
            Some(h) => hint + seq![':', ' '] + h@,
            None => hint,
        }
    } else {
        help
    }
}

/// Writes `value` as the token of `arg`: bare for a positional argument,
/// `--<id>=<value>` for a flag.
pub fn value_token(arg: &ArgDescriptor, value: &str) -> (r: String)
    ensures
        r@ == value_token_of(*arg, value@),
{
    if arg.positional {
        value.to_owned()
    } else {
        let mut r = String::from_str("--");
        r.append(arg.id.as_str());
        r.append("=");
        r.append(value);
        proof {
            reveal_strlit("--");
            reveal_strlit("=");
        }
        r
    }
}

/// Joins `values` with `delimiter` between each two of them.
pub fn join_values(values: &Vec<String>, delimiter: &str) -> (r: String)
    ensures
        r@ == joined(texts(values@), delimiter@),
{
    let ghost vs = texts(values@);
    if values.len() == 0 {
        return String::new();
    }
    let mut r = values[0].clone();
    let mut i: usize = 1;
    assert(vs.subrange(0, 1).drop_last() =~= Seq::<Seq<char>>::empty());
    while i < values.len()
        invariant
            vs == texts(values@),
            1 <= i <= values@.len(),
            r@ == joined(vs.subrange(0, i as int), delimiter@),
        decreases values@.len() - i,
    {
        r.append(delimiter);
        r.append(values[i].as_str());
        assert(vs.subrange(0, i + 1).drop_last() =~= vs.subrange(0, i as int));
        i = i + 1;
    }
    assert(vs.subrange(0, i as int) =~= vs);
    r
}

/// The tokens that a repeated argument contributes after the user entered
/// `values`.
pub fn repeated_tokens(arg: &ArgDescriptor, values: &Vec<String>) -> (r: Vec<String>)
    ensures
        texts(r@) == repeated_tokens_of(*arg, texts(values@)),
{
    let mut r: Vec<String> = Vec::new();
    if values.len() == 0 {
        assert(texts(r@) =~= Seq::<Seq<char>>::empty());
        return r;
    }
    match &arg.delimiter {
        Some(d) => {
            let all = join_values(values, d.as_str());
            r.push(value_token(arg, all.as_str()));
            assert(texts(r@) =~= repeated_tokens_of(*arg, texts(values@)));
        },
        None => {
            let mut i: usize = 0;
            while i < values.len()
                invariant
                    arg.delimiter is None,
                    i <= values@.len(),
                    r@.len() == i,
                    texts(r@) =~= texts(values@).subrange(0, i as int).map_values(
                        |v: Seq<char>| value_token_of(*arg, v),
                    ),
                decreases values@.len() - i,
            {
                let t = value_token(arg, values[i].as_str());
                let ghost before = r@;
                r.push(t);
                proof {
                    let want = texts(values@).subrange(0, i + 1).map_values(
                        |v: Seq<char>| value_token_of(*arg, v),
                    );
                    assert forall|j: int| 0 <= j < i + 1 implies texts(r@)[j] == want[j] by {
                        if j < i {
                            assert(r@[j] == before[j]);
                            assert(texts(before)[j] == texts(r@)[j]);
                        } else {
                            assert(r@[j] == t);
                            assert(texts(values@)[j] == values@[j]@);
                        }
                    }
                    assert(texts(r@) =~= want);
                }
                i = i + 1;
            }
            assert(texts(values@).subrange(0, i as int) =~= texts(values@));
        },
    }
    r
}

/// The help text shown with the value prompt of `arg`.
pub fn help_text(arg: &ArgDescriptor, verbose: bool) -> (r: String)
    ensures
        r@ == help_text_of(*arg, verbose),
{
    if verbose {
        let mut r = match &arg.type_hint {
            Some(t) => t.clone(),
            None => String::new(),
        };
        if let Some(h) = &arg.help {
            r.append(": ");
            r.append(h.as_str());
            proof {
                reveal_strlit(": ");
            }
        }
        r
    } else {
        match &arg.help {
            Some(h) => h.clone(),
            None => String::new(),
        }
    }
}

} // verus!
