use vstd::prelude::*;
use crate::change_type::ChangeType;
use crate::color::ansi_chars;
use crate::errors::ParseError;
use crate::numbers::{dec_chars, u64_to_string};
use crate::parser::{parse, spec_parse, view_seq, Expr, ParseExpression};

verus! {

/// The repository data a render pass draws on, one field per placeholder.
/// Each field is `None` where the corresponding lookup failed (a detached
/// head, an unborn branch, an unreadable status list): such a placeholder
/// renders as empty text rather than aborting the render.
pub struct RepositoryFacts {
    pub branch: Option<String>,
    pub commit_count: Option<u64>,
    pub new_count: Option<u64>,
    pub modified_count: Option<u64>,
    pub deleted_count: Option<u64>,
    pub renamed_count: Option<u64>,
    pub typechange_count: Option<u64>,
    pub staged_new_count: Option<u64>,
    pub staged_modified_count: Option<u64>,
    pub staged_deleted_count: Option<u64>,
    pub staged_renamed_count: Option<u64>,
    pub staged_typechange_count: Option<u64>,
}

/// The count a facts record holds for one change bucket.
pub open spec fn spec_count(f: RepositoryFacts, c: ChangeType) -> Option<u64> {
    match c {
        ChangeType::WTNew => f.new_count,
        ChangeType::WTModified => f.modified_count,
        ChangeType::WTDeleted => f.deleted_count,
        ChangeType::WTRenamed => f.renamed_count,
        ChangeType::WTTypechange => f.typechange_count,
        ChangeType::StagedNew => f.staged_new_count,
        ChangeType::StagedModified => f.staged_modified_count,
        ChangeType::StagedDeleted => f.staged_deleted_count,
        ChangeType::StagedRenamed => f.staged_renamed_count,
        ChangeType::StagedTypechange => f.staged_typechange_count,
    }
}

impl RepositoryFacts {
    /// The count recorded for one change bucket.
    pub fn count(&self, category: &ChangeType) -> (r: Option<u64>)
        ensures
            r == spec_count(*self, *category),
    {
        match category {
            ChangeType::WTNew => self.new_count,
            ChangeType::WTModified => self.modified_count,
            ChangeType::WTDeleted => self.deleted_count,
            ChangeType::WTRenamed => self.renamed_count,
            ChangeType::WTTypechange => self.typechange_count,
            ChangeType::StagedNew => self.staged_new_count,
            ChangeType::StagedModified => self.staged_modified_count,
            ChangeType::StagedDeleted => self.staged_deleted_count,
            ChangeType::StagedRenamed => self.staged_renamed_count,
            ChangeType::StagedTypechange => self.staged_typechange_count,
        }
    }
}

/// The text one node renders to: literals pass through, placeholders read
/// the facts (an absent fact renders as empty text), and colours render as
/// their escape sequence.
pub open spec fn spec_render_one(e: Expr, f: RepositoryFacts) -> Seq<char> {
    match e {
        Expr::Literal(t) => t,
        Expr::Branch => match f.branch {
            Some(b) => b@,
            None => Seq::empty(),
        },
        Expr::CommitCount => match f.commit_count {
            Some(n) => dec_chars(n as int),
            None => Seq::empty(),
        },
        Expr::ChangeCount(c) => match spec_count(f, c) {
            Some(n) => dec_chars(n as int),
            None => Seq::empty(),
        },
        Expr::Color(c) => ansi_chars(c),
    }
}

/// The text a node sequence renders to: each node's text in order, with no
/// separators.
pub open spec fn spec_render(items: Seq<Expr>, f: RepositoryFacts) -> Seq<char>
    decreases items.len(),
{
    if items.len() == 0 {
        Seq::empty()
    } else {
        spec_render_one(items[0], f).add(spec_render(items.drop_first(), f))
    }
}

/// Rendering one more node appends exactly that node's text.
pub proof fn lemma_spec_render_push(items: Seq<Expr>, e: Expr, f: RepositoryFacts)
    ensures
        spec_render(items.push(e), f) == spec_render(items, f).add(spec_render_one(e, f)),
    decreases items.len(),
{
    if items.len() == 0 {
        let p = items.push(e);
        assert(p[0] == e);
        assert(p.drop_first() =~= Seq::<Expr>::empty());
        assert(spec_render(p.drop_first(), f) == Seq::<char>::empty());
        assert(spec_render(p, f) =~= spec_render_one(e, f));
        assert(spec_render(items, f).add(spec_render_one(e, f)) =~= spec_render_one(e, f));
    } else {
        assert(items.push(e).drop_first() =~= items.drop_first().push(e));
        assert(items.push(e)[0] == items[0]);
        lemma_spec_render_push(items.drop_first(), e, f);
        assert(spec_render(items.push(e), f) =~= spec_render(items, f).add(
            spec_render_one(e, f),
        ));
    }
}

/// Renders a parsed node sequence against the given facts, concatenating
/// each node's text in order. Rendering never fails: a placeholder whose
/// fact is absent contributes empty text.
pub fn render(items: &Vec<ParseExpression>, facts: &RepositoryFacts) -> (out: String)
    ensures
        out@ == spec_render(view_seq(items@), *facts),
{
    let mut out = String::new();
    let n = items.len();
    let mut i: usize = 0;
    while i < n
        invariant
            i <= n,
            n == items@.len(),
            out@ == spec_render(view_seq(items@).take(i as int), *facts),
        decreases n - i,
    {
        let ghost pre = out@;
        let e = &items[i];
        match e {
            ParseExpression::Literal(t) => {
                out.append(t.as_str());
            },
            ParseExpression::Branch => {
                match &facts.branch {
                    Some(b) => {
                        out.append(b.as_str());
                    },
                    None => {},
                }
            },
            ParseExpression::CommitCount => {
                match facts.commit_count {
                    Some(v) => {
                        let s = u64_to_string(v);
                        out.append(s.as_str());
                    },
                    None => {},
                }
            },
            ParseExpression::ChangeCount(cat) => {
                match facts.count(cat) {
                    Some(v) => {
                        let s = u64_to_string(v);
                        out.append(s.as_str());
                    },
                    None => {},
                }
            },
            ParseExpression::Color(col) => {
                let s = col.to_ansi();
                out.append(s.as_str());
            },
        }
        proof {
            let vs = view_seq(items@);
            assert(out@ =~= pre.add(spec_render_one(vs[i as int], *facts)));
            lemma_spec_render_push(vs.take(i as int), vs[i as int], *facts);
            assert(vs.take(i as int).push(vs[i as int]) =~= vs.take(i as int + 1));
        }
        i = i + 1;
    }
    proof {
        assert(view_seq(items@).take(n as int) =~= view_seq(items@));
    }
    out
}

/// Parses a template and renders it against the given facts: the node
/// sequence of a well-formed template rendered in order, or the template's
/// parse error.
pub fn format_template(template: &str, facts: &RepositoryFacts) -> (r: Result<String, ParseError>)
    ensures
        match r {
            Ok(out) => spec_parse(template@) matches Ok(items) && out@ == spec_render(
                items,
                *facts,
            ),
            Err(e) => spec_parse(template@) == Err::<Seq<Expr>, ParseError>(e),
        },
{
    match parse(template) {
        Ok(items) => Ok(render(&items, facts)),
        Err(e) => Err(e),
    }
}

} // verus!
