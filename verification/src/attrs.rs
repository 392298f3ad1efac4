//! The attribute classifier: partitions an element's attributes into id
//! values, class tokens, and remaining `name="value"` pairs, and renders each
//! bucket with a leading-separator join.

use vstd::prelude::*;

use crate::node::Attr;
use crate::text::{char_is_ws, is_ws, str_eq};

verus! {

/// The longest whitespace-free prefix of `s`.
pub open spec fn take_token(s: Seq<char>) -> Seq<char>
    decreases s.len(),
{
    if s.len() > 0 && !is_ws(s[0]) {
        seq![s[0]] + take_token(s.drop_first())
    } else {
        Seq::empty()
    }
}

/// `s` without its longest whitespace-free prefix.
pub open spec fn skip_token(s: Seq<char>) -> Seq<char>
    decreases s.len(),
{
    if s.len() > 0 && !is_ws(s[0]) {
        skip_token(s.drop_first())
    } else {
        s
    }
}

/// Skipping a token never lengthens a string.
proof fn lemma_skip_token_le(s: Seq<char>)
    ensures
        skip_token(s).len() <= s.len(),
    decreases s.len(),
{
    if s.len() > 0 && !is_ws(s[0]) {
        lemma_skip_token_le(s.drop_first());
    }
}

/// The maximal whitespace-free runs of `s`, in order: what
/// `str::split_whitespace` yields.
pub open spec fn split_ws(s: Seq<char>) -> Seq<Seq<char>>
    decreases s.len(),
    via split_ws_decreases
{
    if s.len() == 0 {
        Seq::empty()
    } else if is_ws(s[0]) {
        split_ws(s.drop_first())
    } else {
        seq![take_token(s)] + split_ws(skip_token(s))
    }
}

#[via_fn]
proof fn split_ws_decreases(s: Seq<char>) {
    if s.len() > 0 && !is_ws(s[0]) {
        lemma_skip_token_le(s.drop_first());
    }
}

/// When the first `j` characters of `s` are not whitespace and the next one
/// (if any) is, the leading token is exactly those `j` characters.
pub proof fn lemma_token_split(s: Seq<char>, j: int)
    requires
        0 <= j <= s.len(),
        forall|l: int| 0 <= l < j ==> !is_ws(s[l]),
        j == s.len() || is_ws(s[j]),
    ensures
        take_token(s) == s.take(j),
        skip_token(s) == s.skip(j),
    decreases j,
{
    if j == 0 {
        assert(s.take(0) =~= Seq::<char>::empty());
        assert(s.skip(0) =~= s);
    } else {
        let t = s.drop_first();
        lemma_token_split(t, j - 1);
        assert(seq![s[0]] + t.take(j - 1) =~= s.take(j));
        assert(t.skip(j - 1) =~= s.skip(j));
    }
}

/// Concatenation of the items of `items`, each preceded by `sep`: a leading
/// separator exactly when at least one item exists, and nothing otherwise.
pub open spec fn lead_join(items: Seq<Seq<char>>, sep: Seq<char>) -> Seq<char>
    decreases items.len(),
{
    if items.len() == 0 {
        Seq::empty()
    } else {
        sep + items[0] + lead_join(items.drop_first(), sep)
    }
}

/// The leading-separator join distributes over concatenation of item lists.
pub proof fn lemma_lead_join_concat(a: Seq<Seq<char>>, b: Seq<Seq<char>>, sep: Seq<char>)
    ensures
        lead_join(a + b, sep) == lead_join(a, sep) + lead_join(b, sep),
    decreases a.len(),
{
    if a.len() == 0 {
        assert(a + b =~= b);
        assert(Seq::<char>::empty() + lead_join(b, sep) =~= lead_join(b, sep));
    } else {
        lemma_lead_join_concat(a.drop_first(), b, sep);
        assert((a + b).drop_first() =~= a.drop_first() + b);
        assert((a + b)[0] == a[0]);
        assert(sep + a[0] + (lead_join(a.drop_first(), sep) + lead_join(b, sep)) =~= (sep + a[0]
            + lead_join(a.drop_first(), sep)) + lead_join(b, sep));
    }
}

/// The values of the attributes named `id`, in attribute order.
pub open spec fn ids_of(attrs: Seq<Attr>) -> Seq<Seq<char>>
    decreases attrs.len(),
{
    if attrs.len() == 0 {
        Seq::empty()
    } else if attrs[0].name@ == "id"@ {
        seq![attrs[0].value@] + ids_of(attrs.drop_first())
    } else {
        ids_of(attrs.drop_first())
    }
}

/// The whitespace-separated tokens of every attribute named `class`, in
/// attribute order.
pub open spec fn classes_of(attrs: Seq<Attr>) -> Seq<Seq<char>>
    decreases attrs.len(),
{
    if attrs.len() == 0 {
        Seq::empty()
    } else if attrs[0].name@ == "class"@ {
        split_ws(attrs[0].value@) + classes_of(attrs.drop_first())
    } else {
        classes_of(attrs.drop_first())
    }
}

/// The rendered form of one attribute that is neither an id nor a class.
pub open spec fn prop_text(a: Attr) -> Seq<char> {
    a.name@ + "=\""@ + a.value@ + "\""@
}

/// The rendered `name="value"` pairs of the attributes that are neither ids
/// nor classes, in attribute order.
pub open spec fn props_of(attrs: Seq<Attr>) -> Seq<Seq<char>>
    decreases attrs.len(),
{
    if attrs.len() == 0 {
        Seq::empty()
    } else if attrs[0].name@ != "id"@ && attrs[0].name@ != "class"@ {
        seq![prop_text(attrs[0])] + props_of(attrs.drop_first())
    } else {
        props_of(attrs.drop_first())
    }
}

/// The whole attribute portion of an element line: ids joined by a leading
/// `#`, class tokens joined by a leading `.`, then the remaining pairs joined
/// by a leading space.
pub open spec fn attrs_text(attrs: Seq<Attr>) -> Seq<char> {
    lead_join(ids_of(attrs), "#"@) + lead_join(classes_of(attrs), "."@) + lead_join(
        props_of(attrs),
        " "@,
    )
}

/// Appends every whitespace-separated token of `v`, each preceded by `.`.
fn push_class_tokens(out: &mut String, v: &str)
    ensures
        final(out)@ == old(out)@ + lead_join(split_ws(v@), "."@),
{
    let n = v.unicode_len();
    let mut i: usize = 0;
    proof {
        assert(v@.skip(0) =~= v@);
    }
    while i < n
        invariant
            0 <= i <= n,
            n == v@.len(),
            out@ + lead_join(split_ws(v@.skip(i as int)), "."@) == old(out)@ + lead_join(
                split_ws(v@),
                "."@,
            ),
        decreases n - i,
    {
        if char_is_ws(v.get_char(i)) {
            proof {
                assert(v@.skip(i as int).drop_first() =~= v@.skip(i + 1int));
            }
            i += 1;
        } else {
            let ghost out0 = out@;
            let ghost t = v@.skip(i as int);
            let mut m: usize = i + 1;
            while m < n && !char_is_ws(v.get_char(m))
                invariant
                    i < m <= n,
                    n == v@.len(),
                    forall|l: int| i <= l < m ==> !is_ws(v@[l]),
                decreases n - m,
            {
                m += 1;
            }
            proof {
                lemma_token_split(t, m - i);
                assert(t.take(m - i) =~= v@.subrange(i as int, m as int));
                assert(t.skip(m - i) =~= v@.skip(m as int));
                assert((seq![take_token(t)] + split_ws(skip_token(t))).drop_first() =~= split_ws(
                    v@.skip(m as int),
                ));
            }
            out.append(".");
            let tok = v.substring_char(i, m);
            out.append(tok);
            proof {
                assert(out@ =~= out0 + ("."@ + v@.subrange(i as int, m as int)));
                assert(out0 + ("."@ + t.take(m - i)) + lead_join(
                    split_ws(v@.skip(m as int)),
                    "."@,
                ) =~= out0 + ("."@ + t.take(m - i) + lead_join(split_ws(v@.skip(m as int)), "."@)));
            }
            i = m;
        }
    }
    proof {
        assert(v@.skip(n as int) =~= Seq::<char>::empty());
        assert(out@ + Seq::<char>::empty() =~= out@);
    }
}

/// Appends the id values of `attrs`, each preceded by `#`.
fn push_ids(out: &mut String, attrs: &Vec<Attr>)
    ensures
        final(out)@ == old(out)@ + lead_join(ids_of(attrs@), "#"@),
{
    let n = attrs.len();
    let mut i: usize = 0;
    proof {
        assert(attrs@.skip(0) =~= attrs@);
    }
    while i < n
        invariant
            0 <= i <= n,
            n == attrs@.len(),
            out@ + lead_join(ids_of(attrs@.skip(i as int)), "#"@) == old(out)@ + lead_join(
                ids_of(attrs@),
                "#"@,
            ),
        decreases n - i,
    {
        proof {
            assert(attrs@.skip(i as int).drop_first() =~= attrs@.skip(i + 1int));
            assert(attrs@.skip(i as int)[0] == attrs@[i as int]);
        }
        let a = &attrs[i];
        if str_eq(a.name.as_str(), "id") {
            let ghost out0 = out@;
            out.append("#");
            out.append(a.value.as_str());
            proof {
                assert((seq![a.value@] + ids_of(attrs@.skip(i + 1int)))[0] == a.value@);
                assert((seq![a.value@] + ids_of(attrs@.skip(i + 1int))).drop_first() =~= ids_of(
                    attrs@.skip(i + 1int),
                ));
                assert(out@ =~= out0 + ("#"@ + a.value@));
                assert(out0 + ("#"@ + a.value@) + lead_join(ids_of(attrs@.skip(i + 1int)), "#"@)
                    =~= out0 + ("#"@ + a.value@ + lead_join(ids_of(attrs@.skip(i + 1int)), "#"@)));
            }
        }
        i += 1;
    }
    proof {
        assert(attrs@.skip(n as int) =~= Seq::<Attr>::empty());
        assert(out@ + Seq::<char>::empty() =~= out@);
    }
}

/// Appends the class tokens of `attrs`, each preceded by `.`.
fn push_classes(out: &mut String, attrs: &Vec<Attr>)
    ensures
        final(out)@ == old(out)@ + lead_join(classes_of(attrs@), "."@),
{
    let n = attrs.len();
    let mut i: usize = 0;
    proof {
        assert(attrs@.skip(0) =~= attrs@);
    }
    while i < n
        invariant
            0 <= i <= n,
            n == attrs@.len(),
            out@ + lead_join(classes_of(attrs@.skip(i as int)), "."@) == old(out)@ + lead_join(
                classes_of(attrs@),
                "."@,
            ),
        decreases n - i,
    {
        proof {
            assert(attrs@.skip(i as int).drop_first() =~= attrs@.skip(i + 1int));
            assert(attrs@.skip(i as int)[0] == attrs@[i as int]);
        }
        let a = &attrs[i];
        if str_eq(a.name.as_str(), "class") {
            let ghost out0 = out@;
            push_class_tokens(out, a.value.as_str());
            proof {
                lemma_lead_join_concat(
                    split_ws(a.value@),
                    classes_of(attrs@.skip(i + 1int)),
                    "."@,
                );
                assert(out0 + lead_join(split_ws(a.value@), "."@) + lead_join(
                    classes_of(attrs@.skip(i + 1int)),
                    "."@,
                ) =~= out0 + (lead_join(split_ws(a.value@), "."@) + lead_join(
                    classes_of(attrs@.skip(i + 1int)),
                    "."@,
                )));
            }
        }
        i += 1;
    }
    proof {
        assert(attrs@.skip(n as int) =~= Seq::<Attr>::empty());
        assert(out@ + Seq::<char>::empty() =~= out@);
    }
}

/// Appends the remaining `name="value"` pairs of `attrs`, each preceded by a
/// space.
fn push_props(out: &mut String, attrs: &Vec<Attr>)
    ensures
        final(out)@ == old(out)@ + lead_join(props_of(attrs@), " "@),
{
    let n = attrs.len();
    let mut i: usize = 0;
    proof {
        assert(attrs@.skip(0) =~= attrs@);
    }
    while i < n
        invariant
            0 <= i <= n,
            n == attrs@.len(),
            out@ + lead_join(props_of(attrs@.skip(i as int)), " "@) == old(out)@ + lead_join(
                props_of(attrs@),
                " "@,
            ),
        decreases n - i,
    {
        proof {
            assert(attrs@.skip(i as int).drop_first() =~= attrs@.skip(i + 1int));
            assert(attrs@.skip(i as int)[0] == attrs@[i as int]);
        }
        let a = &attrs[i];
        if !str_eq(a.name.as_str(), "id") && !str_eq(a.name.as_str(), "class") {
            let ghost out0 = out@;
            out.append(" ");
            out.append(a.name.as_str());
            out.append("=\"");
            out.append(a.value.as_str());
            out.append("\"");
            proof {
                let items = seq![prop_text(attrs@[i as int])] + props_of(attrs@.skip(i + 1int));
                assert(items[0] == prop_text(attrs@[i as int]));
                assert(items.drop_first() =~= props_of(attrs@.skip(i + 1int)));
                assert(out@ =~= out0 + (" "@ + prop_text(attrs@[i as int])));
                assert(out0 + (" "@ + prop_text(attrs@[i as int])) + lead_join(
                    props_of(attrs@.skip(i + 1int)),
                    " "@,
                ) =~= out0 + (" "@ + prop_text(attrs@[i as int]) + lead_join(
                    props_of(attrs@.skip(i + 1int)),
                    " "@,
                )));
            }
        }
        i += 1;
    }
    proof {
        assert(attrs@.skip(n as int) =~= Seq::<Attr>::empty());
        assert(out@ + Seq::<char>::empty() =~= out@);
    }
}

/// Appends the whole attribute portion of an element line.
pub fn push_attrs(out: &mut String, attrs: &Vec<Attr>)
    ensures
        final(out)@ == old(out)@ + attrs_text(attrs@),
{
    push_ids(out, attrs);
    push_classes(out, attrs);
    push_props(out, attrs);
    proof {
        assert(old(out)@ + lead_join(ids_of(attrs@), "#"@) + lead_join(classes_of(attrs@), "."@)
            + lead_join(props_of(attrs@), " "@) =~= old(out)@ + attrs_text(attrs@));
    }
}

} // verus!
