use vstd::prelude::*;
use crate::errors::ParseError;
use crate::parser::{lemma_literal_len, literal_len, spec_parse, Expr};
use crate::render::{spec_render, RepositoryFacts};

verus! {

/// A template with no `{` is all literal text: it parses (to one literal
/// node, or to none when empty) and renders back to exactly itself,
/// whatever the facts are.
pub proof fn lemma_literal_roundtrip(t: Seq<char>, facts: RepositoryFacts)
    requires
        forall|i: int| 0 <= i < t.len() ==> t[i] != '{',
    ensures
        spec_parse(t) matches Ok(items) && spec_render(items, facts) == t,
{
    if t.len() == 0 {
        assert(spec_parse(t) == Ok::<Seq<Expr>, ParseError>(Seq::empty()));
        assert(spec_render(Seq::<Expr>::empty(), facts) =~= t);
    } else {
        lemma_literal_len(t);
        let k = literal_len(t);
        assert(k == t.len());
        let rest = t.skip(k);
        assert(rest.len() == 0);
        assert(spec_parse(rest) == Ok::<Seq<Expr>, ParseError>(Seq::empty()));
        let items = seq![Expr::Literal(t.take(k))].add(Seq::<Expr>::empty());
        assert(spec_parse(t) == Ok::<Seq<Expr>, ParseError>(items));
        assert(t.take(k) =~= t);
        assert(items[0] == Expr::Literal(t.take(k)));
        assert(items.drop_first() =~= Seq::<Expr>::empty());
        assert(spec_render(items.drop_first(), facts) == Seq::<char>::empty());
        assert(spec_render(items, facts) =~= t);
    }
}

/// Parsing is deterministic: any two results of parsing the same template
/// are equal, node for node.
pub proof fn lemma_parse_deterministic(
    t: Seq<char>,
    r1: Result<Seq<Expr>, ParseError>,
    r2: Result<Seq<Expr>, ParseError>,
)
    requires
        r1 == spec_parse(t),
        r2 == spec_parse(t),
    ensures
        r1 == r2,
{
}

} // verus!
