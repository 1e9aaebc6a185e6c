use vstd::prelude::*;
use crate::change_type::ChangeType;
use crate::color::TerminalColor;
use crate::errors::ParseError;
use crate::handlers::{resolve_function, spec_resolve, views_of};
use crate::strutil::str_eq;

verus! {

/// The mathematical shape of one parsed node: what a `ParseExpression` is,
/// with literal text as a plain character sequence.
#[verifier::ext_equal]
pub enum Expr {
    Literal(Seq<char>),
    Branch,
    CommitCount,
    ChangeCount(ChangeType),
    Color(TerminalColor),
}

/// One node of a parsed template: a run of raw text, a variable placeholder,
/// or a colour directive already resolved against the handler table.
#[derive(Debug)]
pub enum ParseExpression {
    /// Raw text, passed through unchanged. Never empty and never contains `{`.
    Literal(String),
    /// The repository's current branch name.
    Branch,
    /// The number of commits reachable from the current position.
    CommitCount,
    /// The number of files in one change bucket.
    ChangeCount(ChangeType),
    /// A colour directive, validated at parse time.
    Color(TerminalColor),
}

impl View for ParseExpression {
    type V = Expr;

    open spec fn view(&self) -> Expr {
        match self {
            ParseExpression::Literal(s) => Expr::Literal(s@),
            ParseExpression::Branch => Expr::Branch,
            ParseExpression::CommitCount => Expr::CommitCount,
            ParseExpression::ChangeCount(c) => Expr::ChangeCount(*c),
            ParseExpression::Color(c) => Expr::Color(*c),
        }
    }
}

impl PartialEq for ParseExpression {
    fn eq(&self, other: &Self) -> (r: bool) {
        match (self, other) {
            (ParseExpression::Literal(a), ParseExpression::Literal(b)) => *a == *b,
            (ParseExpression::Branch, ParseExpression::Branch) => true,
            (ParseExpression::CommitCount, ParseExpression::CommitCount) => true,
            (ParseExpression::ChangeCount(a), ParseExpression::ChangeCount(b)) => *a == *b,
            (ParseExpression::Color(a), ParseExpression::Color(b)) => *a == *b,
            _ => false,
        }
    }
}

impl vstd::std_specs::cmp::PartialEqSpecImpl for ParseExpression {
    open spec fn obeys_eq_spec() -> bool {
        true
    }

    open spec fn eq_spec(&self, other: &Self) -> bool {
        self@ == other@
    }
}

/// The views of a sequence of parsed nodes.
pub open spec fn view_seq(v: Seq<ParseExpression>) -> Seq<Expr> {
    v.map_values(|e: ParseExpression| e@)
}

/// The length of the leading run of ordinary characters: everything up to,
/// but not including, the first `{` (or the whole string if it has none).
pub open spec fn literal_len(s: Seq<char>) -> int
    decreases s.len(),
{
    if s.len() == 0 || s[0] == '{' {
        0
    } else {
        1 + literal_len(s.drop_first())
    }
}

pub proof fn lemma_literal_len(s: Seq<char>)
    ensures
        0 <= literal_len(s) <= s.len(),
        forall|j: int| 0 <= j < literal_len(s) ==> s[j] != '{',
        literal_len(s) < s.len() ==> s[literal_len(s)] == '{',
        s.len() > 0 && s[0] != '{' ==> literal_len(s) >= 1,
    decreases s.len(),
{
    if s.len() == 0 || s[0] == '{' {
    } else {
        let t = s.drop_first();
        lemma_literal_len(t);
        assert forall|j: int| 0 <= j < literal_len(s) implies s[j] != '{' by {
            if j > 0 {
                assert(t[j - 1] == s[j]);
            }
        }
        if literal_len(s) < s.len() {
            assert(t[literal_len(s) - 1] == s[literal_len(s)]);
        }
    }
}

/// The index of the first occurrence of `c` in `s`, if any.
pub open spec fn find_index(s: Seq<char>, c: char) -> Option<int>
    decreases s.len(),
{
    if s.len() == 0 {
        None
    } else if s[0] == c {
        Some(0int)
    } else {
        match find_index(s.drop_first(), c) {
            Some(i) => Some(i + 1),
            None => None,
        }
    }
}

pub proof fn lemma_find_index(s: Seq<char>, c: char)
    ensures
        match find_index(s, c) {
            Some(i) => 0 <= i < s.len() && s[i] == c && (forall|j: int| 0 <= j < i ==> s[j] != c),
            None => forall|j: int| 0 <= j < s.len() ==> s[j] != c,
        },
    decreases s.len(),
{
    if s.len() == 0 {
    } else if s[0] == c {
    } else {
        let t = s.drop_first();
        lemma_find_index(t, c);
        match find_index(t, c) {
            Some(i) => {
                assert(t[i] == s[i + 1]);
                assert forall|j: int| 0 <= j < i + 1 implies s[j] != c by {
                    if j > 0 {
                        assert(t[j - 1] == s[j]);
                    }
                }
            },
            None => {
                assert forall|j: int| 0 <= j < s.len() implies s[j] != c by {
                    if j > 0 {
                        assert(t[j - 1] == s[j]);
                    }
                }
            },
        }
    }
}

/// Whether a character may appear in a function argument: ASCII letters,
/// digits, and the underscore.
pub open spec fn is_arg_char(c: char) -> bool {
    ('a' as u32 <= c as u32 && c as u32 <= 'z' as u32) || ('A' as u32 <= c as u32 && c as u32
        <= 'Z' as u32) || ('0' as u32 <= c as u32 && c as u32 <= '9' as u32) || c == '_'
}

/// The length of the leading run of argument characters.
pub open spec fn arg_prefix_len(s: Seq<char>) -> int
    decreases s.len(),
{
    if s.len() == 0 || !is_arg_char(s[0]) {
        0
    } else {
        1 + arg_prefix_len(s.drop_first())
    }
}

pub proof fn lemma_arg_prefix_len(s: Seq<char>)
    ensures
        0 <= arg_prefix_len(s) <= s.len(),
        forall|j: int| 0 <= j < arg_prefix_len(s) ==> is_arg_char(s[j]),
        arg_prefix_len(s) < s.len() ==> !is_arg_char(s[arg_prefix_len(s)]),
    decreases s.len(),
{
    if s.len() == 0 || !is_arg_char(s[0]) {
    } else {
        let t = s.drop_first();
        lemma_arg_prefix_len(t);
        assert forall|j: int| 0 <= j < arg_prefix_len(s) implies is_arg_char(s[j]) by {
            if j > 0 {
                assert(t[j - 1] == s[j]);
            }
        }
        if arg_prefix_len(s) < s.len() {
            assert(t[arg_prefix_len(s) - 1] == s[arg_prefix_len(s)]);
        }
    }
}

/// The length of the leading run of spaces.
pub open spec fn space_prefix_len(s: Seq<char>) -> int
    decreases s.len(),
{
    if s.len() == 0 || s[0] != ' ' {
        0
    } else {
        1 + space_prefix_len(s.drop_first())
    }
}

pub proof fn lemma_space_prefix_len(s: Seq<char>)
    ensures
        0 <= space_prefix_len(s) <= s.len(),
        forall|j: int| 0 <= j < space_prefix_len(s) ==> s[j] == ' ',
        space_prefix_len(s) < s.len() ==> s[space_prefix_len(s)] != ' ',
    decreases s.len(),
{
    if s.len() == 0 || s[0] != ' ' {
    } else {
        let t = s.drop_first();
        lemma_space_prefix_len(t);
        assert forall|j: int| 0 <= j < space_prefix_len(s) implies s[j] == ' ' by {
            if j > 0 {
                assert(t[j - 1] == s[j]);
            }
        }
        if space_prefix_len(s) < s.len() {
            assert(t[space_prefix_len(s) - 1] == s[space_prefix_len(s)]);
        }
    }
}

/// What parsing an argument list (the text between the parentheses) yields:
/// a possibly empty, comma-separated list of non-empty argument-character
/// runs, where spaces are allowed, and stripped, after each comma only.
pub open spec fn spec_params(s: Seq<char>) -> Option<Seq<Seq<char>>>
    decreases s.len(),
    via spec_params_decreases
{
    if s.len() == 0 {
        Some(Seq::empty())
    } else {
        let k = arg_prefix_len(s);
        if k == 0 {
            None
        } else if k == s.len() {
            Some(seq![s.take(k)])
        } else if s[k] == ',' {
            let sp = space_prefix_len(s.skip(k + 1));
            let rest = s.skip(k + 1 + sp);
            if rest.len() == 0 {
                None
            } else {
                match spec_params(rest) {
                    Some(ps) => Some(seq![s.take(k)].add(ps)),
                    None => None,
                }
            }
        } else {
            None
        }
    }
}

#[via_fn]
proof fn spec_params_decreases(s: Seq<char>) {
    lemma_arg_prefix_len(s);
    let k = arg_prefix_len(s);
    if 0 < k < s.len() {
        lemma_space_prefix_len(s.skip(k + 1));
    }
}

/// What splitting a function token into its name and arguments yields: the
/// text before the first `(` is the name; the call must end with `)` and the
/// text between the parentheses must be a well-formed argument list.
pub open spec fn spec_function_parts(c: Seq<char>) -> Option<(Seq<char>, Seq<Seq<char>>)> {
    match find_index(c, '(') {
        None => None,
        Some(p) => {
            if c.len() >= p + 2 && c.last() == ')' {
                match spec_params(c.subrange(p + 1, c.len() - 1)) {
                    Some(args) => Some((c.take(p), args)),
                    None => None,
                }
            } else {
                None
            }
        },
    }
}

/// What classifying the content of one `{...}` token yields: first the fixed
/// variable names, then function calls resolved through the handler table;
/// anything else is an error.
pub open spec fn spec_classify(c: Seq<char>) -> Result<Expr, ParseError> {
    if c == "branch"@ {
        Ok(Expr::Branch)
    } else if c == "commit_count"@ {
        Ok(Expr::CommitCount)
    } else if c == "new_count"@ {
        Ok(Expr::ChangeCount(ChangeType::WTNew))
    } else if c == "modified_count"@ {
        Ok(Expr::ChangeCount(ChangeType::WTModified))
    } else if c == "deleted_count"@ {
        Ok(Expr::ChangeCount(ChangeType::WTDeleted))
    } else if c == "renamed_count"@ {
        Ok(Expr::ChangeCount(ChangeType::WTRenamed))
    } else if c == "typechange_count"@ {
        Ok(Expr::ChangeCount(ChangeType::WTTypechange))
    } else if c == "staged_new_count"@ {
        Ok(Expr::ChangeCount(ChangeType::StagedNew))
    } else if c == "staged_modified_count"@ {
        Ok(Expr::ChangeCount(ChangeType::StagedModified))
    } else if c == "staged_deleted_count"@ {
        Ok(Expr::ChangeCount(ChangeType::StagedDeleted))
    } else if c == "staged_renamed_count"@ {
        Ok(Expr::ChangeCount(ChangeType::StagedRenamed))
    } else if c == "staged_typechange_count"@ {
        Ok(Expr::ChangeCount(ChangeType::StagedTypechange))
    } else {
        match spec_function_parts(c) {
            None => Err(ParseError::UnknownToken),
            Some((name, args)) => match spec_resolve(name, args) {
                Ok(col) => Ok(Expr::Color(col)),
                Err(e) => Err(e),
            },
        }
    }
}

/// What parsing a whole template yields: the ordered node sequence, or the
/// error of the leftmost offending fragment. A `{` opens a token that runs
/// to the next `}`; text outside tokens becomes literal nodes.
pub open spec fn spec_parse(s: Seq<char>) -> Result<Seq<Expr>, ParseError>
    decreases s.len(),
    via spec_parse_decreases
{
    if s.len() == 0 {
        Ok(Seq::empty())
    } else if s[0] == '{' {
        match find_index(s.skip(1), '}') {
            None => Err(ParseError::UnterminatedToken),
            Some(i) => {
                let content = s.subrange(1, 1 + i);
                let rest = s.skip(2 + i);
                match spec_classify(content) {
                    Err(e) => Err(e),
                    Ok(e) => match spec_parse(rest) {
                        Ok(v) => Ok(seq![e].add(v)),
                        Err(er) => Err(er),
                    },
                }
            },
        }
    } else {
        let k = literal_len(s);
        match spec_parse(s.skip(k)) {
            Ok(v) => Ok(seq![Expr::Literal(s.take(k))].add(v)),
            Err(e) => Err(e),
        }
    }
}

#[via_fn]
proof fn spec_parse_decreases(s: Seq<char>) {
    if s.len() > 0 {
        if s[0] == '{' {
            lemma_find_index(s.skip(1), '}');
        } else {
            lemma_literal_len(s);
        }
    }
}

/// What a function-call token resolves to, or the error naming what went
/// wrong with it.
pub open spec fn spec_function(c: Seq<char>) -> Result<Expr, ParseError> {
    match spec_function_parts(c) {
        None => Err(ParseError::UnknownToken),
        Some((name, args)) => match spec_resolve(name, args) {
            Ok(col) => Ok(Expr::Color(col)),
            Err(e) => Err(e),
        },
    }
}

/// The scanner's continue test for a literal run: every byte but `{`.
pub fn brace_or_eol(c: u8) -> (r: bool)
    ensures
        r == (c != 123),
{
    c != 123
}

fn find_from(s: &str, c: char, start: usize) -> (r: Option<usize>)
    requires
        start <= s@.len(),
    ensures
        match r {
            Some(i) => start <= i < s@.len() && s@[i as int] == c && (forall|j: int|
                start <= j < i ==> s@[j] != c),
            None => forall|j: int| start <= j < s@.len() ==> s@[j] != c,
        },
{
    let n = s.unicode_len();
    let mut i: usize = start;
    while i < n
        invariant
            start <= i <= n,
            n == s@.len(),
            forall|j: int| start <= j < i ==> s@[j] != c,
        decreases n - i,
    {
        if s.get_char(i) == c {
            return Some(i);
        }
        i = i + 1;
    }
    None
}

fn literal_run(s: &str) -> (k: usize)
    ensures
        k as int == literal_len(s@),
        k <= s@.len(),
{
    let n = s.unicode_len();
    let mut i: usize = 0;
    while i < n && s.get_char(i) != '{'
        invariant
            i <= n,
            n == s@.len(),
            forall|j: int| 0 <= j < i ==> s@[j] != '{',
        decreases n - i,
    {
        i = i + 1;
    }
    proof {
        lemma_literal_len(s@);
        let k = literal_len(s@);
        if k < i as int {
            assert(s@[k] == '{');
            assert(false);
        }
        if k > i as int {
            assert((i as int) < s@.len());
            assert(s@[i as int] == '{');
            assert(false);
        }
    }
    i
}

fn arg_char(c: char) -> (b: bool)
    ensures
        b == is_arg_char(c),
{
    let u = c as u32;
    (97 <= u && u <= 122) || (65 <= u && u <= 90) || (48 <= u && u <= 57) || c == '_'
}

fn arg_run(s: &str) -> (k: usize)
    ensures
        k as int == arg_prefix_len(s@),
        k <= s@.len(),
{
    let n = s.unicode_len();
    let mut i: usize = 0;
    while i < n && arg_char(s.get_char(i))
        invariant
            i <= n,
            n == s@.len(),
            forall|j: int| 0 <= j < i ==> is_arg_char(s@[j]),
        decreases n - i,
    {
        i = i + 1;
    }
    proof {
        lemma_arg_prefix_len(s@);
        let k = arg_prefix_len(s@);
        if k < i as int {
            assert(!is_arg_char(s@[k]));
            assert(false);
        }
        if k > i as int {
            assert((i as int) < s@.len());
            assert(!is_arg_char(s@[i as int]));
            assert(false);
        }
    }
    i
}

fn space_run(s: &str, start: usize) -> (m: usize)
    requires
        start <= s@.len(),
    ensures
        m as int == space_prefix_len(s@.skip(start as int)),
        start + m <= s@.len(),
{
    let n = s.unicode_len();
    let mut i: usize = start;
    while i < n && s.get_char(i) == ' '
        invariant
            start <= i <= n,
            n == s@.len(),
            forall|j: int| start <= j < i ==> s@[j] == ' ',
        decreases n - i,
    {
        i = i + 1;
    }
    proof {
        let t = s@.skip(start as int);
        lemma_space_prefix_len(t);
        let k = space_prefix_len(t);
        assert forall|j: int| 0 <= j < t.len() implies t[j] == s@[start + j] by {}
        if k < i as int - start {
            assert(t[k] != ' ');
            assert(s@[start + k] == ' ');
            assert(false);
        }
        if k > i as int - start {
            assert((i as int) < s@.len());
            assert(t[i as int - start] == ' ');
            assert(s@[i as int] != ' ');
            assert(false);
        }
    }
    i - start
}

/// Splits an argument list (the text between the parentheses) into its
/// arguments: comma-separated runs of letters, digits and underscores, with
/// spaces allowed only after a comma. Yields nothing if the list is
/// malformed.
pub fn parse_params(s: &str) -> (r: Option<Vec<String>>)
    ensures
        match r {
            Some(v) => spec_params(s@) == Some(views_of(v@)),
            None => spec_params(s@) is None,
        },
    decreases s@.len(),
{
    let n = s.unicode_len();
    if n == 0 {
        let v: Vec<String> = Vec::new();
        proof {
            assert(views_of(v@) =~= Seq::<Seq<char>>::empty());
        }
        return Some(v);
    }
    let k = arg_run(s);
    if k == 0 {
        return None;
    }
    if k == n {
        let mut v: Vec<String> = Vec::new();
        v.push(String::from_str(s));
        proof {
            assert(s@.take(k as int) =~= s@);
            assert(views_of(v@) =~= seq![s@.take(k as int)]);
        }
        return Some(v);
    }
    if s.get_char(k) != ',' {
        return None;
    }
    let m = space_run(s, k + 1);
    let restpos = k + 1 + m;
    if restpos == n {
        return None;
    }
    let first = s.substring_char(0, k);
    let rest = s.substring_char(restpos, n);
    proof {
        assert(rest@ =~= s@.skip(restpos as int));
    }
    match parse_params(rest) {
        None => None,
        Some(mut v2) => {
            let mut v: Vec<String> = Vec::new();
            v.push(String::from_str(first));
            let ghost v2snap = v2@;
            v.append(&mut v2);
            proof {
                assert(views_of(v@) =~= seq![s@.take(k as int)].add(views_of(v2snap)));
            }
            Some(v)
        },
    }
}

/// Splits a function-call token into its name (the text before the first
/// `(`) and its argument list, which must end the token with `)`. Yields
/// nothing if the content has no such shape.
pub fn function_parts(content: &str) -> (r: Option<(String, Vec<String>)>)
    ensures
        match r {
            Some(pair) => spec_function_parts(content@) == Some((pair.0@, views_of(pair.1@))),
            None => spec_function_parts(content@) is None,
        },
{
    let n = content.unicode_len();
    match find_from(content, '(', 0) {
        None => {
            proof {
                lemma_find_index(content@, '(');
                match find_index(content@, '(') {
                    Some(p) => {
                        assert(content@[p] != '(');
                        assert(false);
                    },
                    None => {},
                }
            }
            None
        },
        Some(p) => {
            proof {
                lemma_find_index(content@, '(');
                match find_index(content@, '(') {
                    Some(q) => {
                        if q < p as int {
                            assert(content@[q] != '(');
                            assert(false);
                        }
                        if q > p as int {
                            assert(content@[p as int] != '(');
                            assert(false);
                        }
                    },
                    None => {
                        assert(content@[p as int] != '(');
                        assert(false);
                    },
                }
            }
            if p + 1 >= n {
                return None;
            }
            if content.get_char(n - 1) != ')' {
                return None;
            }
            let name = content.substring_char(0, p);
            let inner = content.substring_char(p + 1, n - 1);
            match parse_params(inner) {
                None => None,
                Some(args) => Some((String::from_str(name), args)),
            }
        },
    }
}

/// Parses one function-call token, resolving it through the handler table.
pub fn function_parser(content: &str) -> (r: Result<ParseExpression, ParseError>)
    ensures
        match r {
            Ok(e) => spec_function(content@) == Ok::<Expr, ParseError>(e@),
            Err(er) => spec_function(content@) == Err::<Expr, ParseError>(er),
        },
{
    match function_parts(content) {
        None => Err(ParseError::UnknownToken),
        Some((name, args)) => match resolve_function(name.as_str(), &args) {
            Ok(col) => Ok(ParseExpression::Color(col)),
            Err(e) => Err(e),
        },
    }
}

fn classify_token(content: &str) -> (r: Result<ParseExpression, ParseError>)
    ensures
        match r {
            Ok(e) => spec_classify(content@) == Ok::<Expr, ParseError>(e@),
            Err(er) => spec_classify(content@) == Err::<Expr, ParseError>(er),
        },
{
    if str_eq(content, "branch") {
        Ok(ParseExpression::Branch)
    } else if str_eq(content, "commit_count") {
        Ok(ParseExpression::CommitCount)
    } else if str_eq(content, "new_count") {
        Ok(ParseExpression::ChangeCount(ChangeType::WTNew))
    } else if str_eq(content, "modified_count") {
        Ok(ParseExpression::ChangeCount(ChangeType::WTModified))
    } else if str_eq(content, "deleted_count") {
        Ok(ParseExpression::ChangeCount(ChangeType::WTDeleted))
    } else if str_eq(content, "renamed_count") {
        Ok(ParseExpression::ChangeCount(ChangeType::WTRenamed))
    } else if str_eq(content, "typechange_count") {
        Ok(ParseExpression::ChangeCount(ChangeType::WTTypechange))
    } else if str_eq(content, "staged_new_count") {
        Ok(ParseExpression::ChangeCount(ChangeType::StagedNew))
    } else if str_eq(content, "staged_modified_count") {
        Ok(ParseExpression::ChangeCount(ChangeType::StagedModified))
    } else if str_eq(content, "staged_deleted_count") {
        Ok(ParseExpression::ChangeCount(ChangeType::StagedDeleted))
    } else if str_eq(content, "staged_renamed_count") {
        Ok(ParseExpression::ChangeCount(ChangeType::StagedRenamed))
    } else if str_eq(content, "staged_typechange_count") {
        Ok(ParseExpression::ChangeCount(ChangeType::StagedTypechange))
    } else {
        function_parser(content)
    }
}

/// Parses a template into its ordered node sequence. A malformed template
/// is rejected as a whole with the error of its leftmost offending
/// fragment.
pub fn parse(template: &str) -> (r: Result<Vec<ParseExpression>, ParseError>)
    ensures
        match r {
            Ok(v) => spec_parse(template@) == Ok::<Seq<Expr>, ParseError>(view_seq(v@)),
            Err(e) => spec_parse(template@) == Err::<Seq<Expr>, ParseError>(e),
        },
    decreases template@.len(),
{
    let n = template.unicode_len();
    if n == 0 {
        let v: Vec<ParseExpression> = Vec::new();
        proof {
            assert(view_seq(v@) =~= Seq::<Expr>::empty());
        }
        return Ok(v);
    }
    let c0 = template.get_char(0);
    if c0 == '{' {
        match find_from(template, '}', 1) {
            None => {
                proof {
                    let t = template@.skip(1);
                    lemma_find_index(t, '}');
                    match find_index(t, '}') {
                        Some(i) => {
                            assert(t[i] == template@[i + 1]);
                            assert(template@[i + 1] != '}');
                            assert(false);
                        },
                        None => {},
                    }
                }
                Err(ParseError::UnterminatedToken)
            },
            Some(j) => {
                proof {
                    let t = template@.skip(1);
                    lemma_find_index(t, '}');
                    match find_index(t, '}') {
                        Some(i) => {
                            assert(t[i] == template@[i + 1]);
                            if i + 1 < j as int {
                                assert(template@[i + 1] != '}');
                                assert(false);
                            }
                            if i + 1 > j as int {
                                assert(t[j as int - 1] == template@[j as int]);
                                assert(t[j as int - 1] != '}');
                                assert(false);
                            }
                        },
                        None => {
                            assert(t[j as int - 1] == template@[j as int]);
                            assert(t[j as int - 1] != '}');
                            assert(false);
                        },
                    }
                }
                let content = template.substring_char(1, j);
                let rest = template.substring_char(j + 1, n);
                proof {
                    assert(rest@ =~= template@.skip(j as int + 1));
                }
                match classify_token(content) {
                    Err(e) => Err(e),
                    Ok(expr) => match parse(rest) {
                        Err(e) => Err(e),
                        Ok(mut v2) => {
                            let mut v: Vec<ParseExpression> = Vec::new();
                            v.push(expr);
                            let ghost v2snap = v2@;
                            v.append(&mut v2);
                            proof {
                                assert(view_seq(v@) =~= seq![expr@].add(view_seq(v2snap)));
                            }
                            Ok(v)
                        },
                    },
                }
            },
        }
    } else {
        let k = literal_run(template);
        proof {
            lemma_literal_len(template@);
        }
        let lit = template.substring_char(0, k);
        let rest = template.substring_char(k, n);
        proof {
            assert(rest@ =~= template@.skip(k as int));
        }
        match parse(rest) {
            Err(e) => Err(e),
            Ok(mut v2) => {
                let mut v: Vec<ParseExpression> = Vec::new();
                v.push(ParseExpression::Literal(String::from_str(lit)));
                let ghost v2snap = v2@;
                v.append(&mut v2);
                proof {
                    assert(view_seq(v@) =~= seq![Expr::Literal(template@.take(k as int))].add(
                        view_seq(v2snap),
                    ));
                }
                Ok(v)
            },
        }
    }
}

} // verus!
