//! Assertions on paths: shorthand expectations converted into one uniform
//! path predicate, evaluated against what was observed at a path.
//!
//! Accepted shorthands:
//! - a structural predicate over the path ([`PathPredicate`]);
//! - bytes, which the file's content must equal exactly;
//! - text, which the file's content must equal once decoded as UTF-8;
//! - a predicate over the decoded text ([`StrPredicate`]).
//!
//! Content that cannot be read or decoded makes a content predicate fail; it
//! is never an error of its own.

use predicates::Predicate;
use predicates_tree::CaseTreeExt;
use vstd::prelude::*;
use vstd::string::StrSliceExecFns;
use vstd::string::StringExecFns;
use vstd::slice::slice_to_vec;
use vstd::utf8::{decode_utf8, valid_utf8};

verus! {

/// What was observed at a path, symlinks followed unless said otherwise.
#[derive(Debug)]
pub struct PathState {
    pub path: String,
    pub exists: bool,
    pub is_file: bool,
    pub is_dir: bool,
    /// Whether the path itself is a symlink (not followed).
    pub is_symlink: bool,
    /// The file's bytes, or the text of the error that reading them gave.
    pub content: Result<Vec<u8>, String>,
}

/// A structural predicate over a path.
#[derive(Copy, Clone, Debug, PartialEq, Eq, Structural)]
pub enum PathPredicate {
    Exists,
    Missing,
    IsFile,
    IsDir,
    IsSymlink,
}

/// A predicate over the text of a file.
#[derive(Clone, Debug)]
pub enum StrPredicate {
    IsEmpty,
    Contains(String),
    StartsWith(String),
    EndsWith(String),
}

pub enum StrPredicateView {
    IsEmpty,
    Contains(Seq<char>),
    StartsWith(Seq<char>),
    EndsWith(Seq<char>),
}

impl View for StrPredicate {
    type V = StrPredicateView;

    open spec fn view(&self) -> StrPredicateView {
        match self {
            StrPredicate::IsEmpty => StrPredicateView::IsEmpty,
            StrPredicate::Contains(p) => StrPredicateView::Contains(p@),
            StrPredicate::StartsWith(p) => StrPredicateView::StartsWith(p@),
            StrPredicate::EndsWith(p) => StrPredicateView::EndsWith(p@),
        }
    }
}

/// Whether `pat` occurs in `s` starting at `i`.
pub open spec fn occurs_at(s: Seq<char>, pat: Seq<char>, i: int) -> bool {
    0 <= i && i + pat.len() <= s.len() && s.subrange(i, i + pat.len()) == pat
}

/// Whether `pat` occurs anywhere in `s`.
pub open spec fn contains_spec(s: Seq<char>, pat: Seq<char>) -> bool {
    exists|i: int| #[trigger] occurs_at(s, pat, i)
}

pub open spec fn path_holds(p: PathPredicate, st: PathState) -> bool {
    match p {
        PathPredicate::Exists => st.exists,
        PathPredicate::Missing => !st.exists,
        PathPredicate::IsFile => st.is_file,
        PathPredicate::IsDir => st.is_dir,
        PathPredicate::IsSymlink => st.is_symlink,
    }
}

pub open spec fn str_holds(p: StrPredicateView, s: Seq<char>) -> bool {
    match p {
        StrPredicateView::IsEmpty => s.len() == 0,
        StrPredicateView::Contains(pat) => contains_spec(s, pat),
        StrPredicateView::StartsWith(pat) => occurs_at(s, pat, 0),
        StrPredicateView::EndsWith(pat) => occurs_at(s, pat, s.len() - pat.len()),
    }
}

pub open spec fn path_description(p: PathPredicate) -> Seq<char> {
    match p {
        PathPredicate::Exists => "var.exists()"@,
        PathPredicate::Missing => "!var.exists()"@,
        PathPredicate::IsFile => "var.is_file()"@,
        PathPredicate::IsDir => "var.is_dir()"@,
        PathPredicate::IsSymlink => "var.is_symlink()"@,
    }
}

pub open spec fn str_description(p: StrPredicateView) -> Seq<char> {
    match p {
        StrPredicateView::IsEmpty => "var.is_empty()"@,
        StrPredicateView::Contains(pat) => "var.contains("@ + pat + ")"@,
        StrPredicateView::StartsWith(pat) => "var.starts_with("@ + pat + ")"@,
        StrPredicateView::EndsWith(pat) => "var.ends_with("@ + pat + ")"@,
    }
}

impl PathPredicate {
    /// Evaluate against what was observed at a path.
    pub fn eval(&self, st: &PathState) -> (r: bool)
        ensures
            r == path_holds(*self, *st),
    {
        match self {
            PathPredicate::Exists => st.exists,
            PathPredicate::Missing => !st.exists,
            PathPredicate::IsFile => st.is_file,
            PathPredicate::IsDir => st.is_dir,
            PathPredicate::IsSymlink => st.is_symlink,
        }
    }

    /// How the predicate reads in an explanation.
    pub fn description(&self) -> (r: String)
        ensures
            r@ == path_description(*self),
    {
        let d = match self {
            PathPredicate::Exists => "var.exists()",
            PathPredicate::Missing => "!var.exists()",
            PathPredicate::IsFile => "var.is_file()",
            PathPredicate::IsDir => "var.is_dir()",
            PathPredicate::IsSymlink => "var.is_symlink()",
        };
        d.to_owned()
    }
}

/// Whether `pat` occurs in `s` at `i`.
fn matches_at(s: &str, pat: &str, i: usize) -> (r: bool)
    requires
        i + pat@.len() <= s@.len(),
    ensures
        r == occurs_at(s@, pat@, i as int),
{
    let n = s.unicode_len();
    let m = pat.unicode_len();
    let mut j: usize = 0;
    while j < m
        invariant
            m == pat@.len(),
            n == s@.len(),
            i + m <= s@.len(),
            j <= m,
            s@.subrange(i as int, i + j) =~= pat@.subrange(0, j as int),
        decreases m - j,
    {
        if s.get_char(i + j) != pat.get_char(j) {
            assert(s@.subrange(i as int, i + m)[j as int] != pat@[j as int]);
            return false;
        }
        j = j + 1;
    }
    assert(pat@.subrange(0, m as int) =~= pat@);
    true
}

impl StrPredicate {
    /// Evaluate against a text.
    pub fn eval(&self, s: &str) -> (r: bool)
        ensures
            r == str_holds(self@, s@),
    {
        let n = s.unicode_len();
        match self {
            StrPredicate::IsEmpty => n == 0,
            StrPredicate::Contains(pat) => {
                let m = pat.unicode_len();
                if m == 0 {
                    assert(s@.subrange(0, 0) =~= pat@);
                    assert(s@.subrange(0, 0 + pat@.len() as int) =~= pat@);
                    assert(occurs_at(s@, pat@, 0));
                    assert(contains_spec(s@, pat@));
                    return true;
                }
                if m > n {
                    return false;
                }
                let mut i: usize = 0;
                while i <= n - m
                    invariant
                        m == pat@.len(),
                        n == s@.len(),
                        1 <= m <= n,
                        i <= n - m + 1,
                        self@ == StrPredicateView::Contains(pat@),
                        forall|k: int| 0 <= k < i ==> !#[trigger] occurs_at(s@, pat@, k),
                    decreases n - m + 1 - i,
                {
                    if matches_at(s, pat.as_str(), i) {
                        assert(occurs_at(s@, pat@, i as int));
                        return true;
                    }
                    i = i + 1;
                }
                false
            },
            StrPredicate::StartsWith(pat) => {
                let m = pat.unicode_len();
                m <= n && matches_at(s, pat.as_str(), 0)
            },
            StrPredicate::EndsWith(pat) => {
                let m = pat.unicode_len();
                m <= n && matches_at(s, pat.as_str(), n - m)
            },
        }
    }

    /// How the predicate reads in an explanation.
    pub fn description(&self) -> (r: String)
        ensures
            r@ == str_description(self@),
    {
        match self {
            StrPredicate::IsEmpty => "var.is_empty()".to_owned(),
            StrPredicate::Contains(pat) => String::from_str("var.contains(").concat(
                pat.as_str(),
            ).concat(")"),
            StrPredicate::StartsWith(pat) => String::from_str("var.starts_with(").concat(
                pat.as_str(),
            ).concat(")"),
            StrPredicate::EndsWith(pat) => String::from_str("var.ends_with(").concat(
                pat.as_str(),
            ).concat(")"),
        }
    }
}

/// A line of an explanation: a named value.
#[derive(Debug)]
pub struct Product {
    pub name: String,
    pub value: String,
}

/// Why a predicate evaluated as it did: the predicate, the outcome it proves,
/// the values involved, and the cases of nested predicates.
#[derive(Debug)]
pub struct Case {
    pub predicate: String,
    pub result: bool,
    pub products: Vec<Product>,
    pub children: Vec<Case>,
}

/// The expected form of a case without children.
pub struct LeafShape {
    pub predicate: Seq<char>,
    pub result: bool,
    pub products: Seq<(Seq<char>, Seq<char>)>,
}

/// The expected form of a case whose children have none.
pub struct CaseShape {
    pub predicate: Seq<char>,
    pub result: bool,
    pub products: Seq<(Seq<char>, Seq<char>)>,
    pub children: Seq<LeafShape>,
}

pub open spec fn products_match(ps: Seq<Product>, want: Seq<(Seq<char>, Seq<char>)>) -> bool {
    &&& ps.len() == want.len()
    &&& forall|i: int|
        0 <= i < ps.len() ==> (#[trigger] ps[i]).name@ == want[i].0 && ps[i].value@ == want[i].1
}

pub open spec fn leaf_matches(c: Case, l: LeafShape) -> bool {
    &&& c.predicate@ == l.predicate
    &&& c.result == l.result
    &&& products_match(c.products@, l.products)
    &&& c.children@.len() == 0
}

pub open spec fn case_matches(c: Case, s: CaseShape) -> bool {
    &&& c.predicate@ == s.predicate
    &&& c.result == s.result
    &&& products_match(c.products@, s.products)
    &&& c.children@.len() == s.children.len()
    &&& forall|i: int|
        0 <= i < s.children.len() ==> leaf_matches(#[trigger] c.children@[i], s.children[i])
}

/// The text of a file's content, when it was read and is valid UTF-8.
pub open spec fn decoded(content: Result<Vec<u8>, String>) -> Option<Seq<char>> {
    match content {
        Ok(b) => if valid_utf8(b@) {
            Some(decode_utf8(b@))
        } else {
            None
        },
        Err(_) => None,
    }
}

/// Relies on `std::str::from_utf8`: it accepts exactly the valid UTF-8 byte
/// sequences, and the text it returns is their decoding.
#[verifier::external_body]
fn decode_text(bytes: &[u8]) -> (r: Option<&str>)
    ensures
        match r {
            Some(t) => valid_utf8(bytes@) && t@ == decode_utf8(bytes@),
            None => !valid_utf8(bytes@),
        },
{
    std::str::from_utf8(bytes).ok()
}

/// The line diff, rendered as a tree, that `predicates::str::diff(orig)`
/// reports for `var`: lines only in `orig` are marked `-`, lines only in
/// `var` are marked `+`.
pub uninterp spec fn text_diff(orig: Seq<char>, var: Seq<char>) -> Seq<char>;

/// Relies on `predicates::str::diff`: `find_case(false, var)` finds a case
/// exactly when the two texts differ; `predicates_tree` renders it.
#[verifier::external_body]
fn diff_text(orig: &str, var: &str) -> (r: Option<String>)
    ensures
        r is Some <==> orig@ != var@,
        r matches Some(d) ==> d@ == text_diff(orig@, var@),
{
    predicates::str::diff(orig.to_owned()).find_case(false, var).map(|c| c.tree().to_string())
}

/// The decimal digit `d`.
pub open spec fn digit_text(d: int) -> Seq<char> {
    if d == 0 {
        "0"@
    } else if d == 1 {
        "1"@
    } else if d == 2 {
        "2"@
    } else if d == 3 {
        "3"@
    } else if d == 4 {
        "4"@
    } else if d == 5 {
        "5"@
    } else if d == 6 {
        "6"@
    } else if d == 7 {
        "7"@
    } else if d == 8 {
        "8"@
    } else {
        "9"@
    }
}

/// A byte in decimal, without leading zeros.
pub open spec fn byte_text(n: u8) -> Seq<char> {
    if n < 10 {
        digit_text(n as int)
    } else if n < 100 {
        digit_text(n as int / 10) + digit_text(n as int % 10)
    } else {
        digit_text(n as int / 100) + digit_text((n as int / 10) % 10) + digit_text(n as int % 10)
    }
}

/// The bytes in decimal, separated by `", "`.
pub open spec fn bytes_list(b: Seq<u8>) -> Seq<char>
    decreases b.len(),
{
    if b.len() == 0 {
        Seq::empty()
    } else if b.len() == 1 {
        byte_text(b[0])
    } else {
        bytes_list(b.drop_last()) + ", "@ + byte_text(b.last())
    }
}

/// How a byte sequence is written in an explanation, as `Debug` writes a
/// byte slice: `[1, 22, 255]`.
pub open spec fn bytes_debug(b: Seq<u8>) -> Seq<char> {
    "["@ + bytes_list(b) + "]"@
}

fn digit(d: u8) -> (r: &'static str)
    requires
        d < 10,
    ensures
        r@ == digit_text(d as int),
{
    match d {
        0 => "0",
        1 => "1",
        2 => "2",
        3 => "3",
        4 => "4",
        5 => "5",
        6 => "6",
        7 => "7",
        8 => "8",
        _ => "9",
    }
}

fn push_byte(out: &mut String, n: u8)
    ensures
        final(out)@ == old(out)@ + byte_text(n),
{
    if n < 10 {
        out.append(digit(n));
    } else if n < 100 {
        out.append(digit(n / 10));
        out.append(digit(n % 10));
    } else {
        out.append(digit(n / 100));
        out.append(digit((n / 10) % 10));
        out.append(digit(n % 10));
    }
    assert(out@ =~= old(out)@ + byte_text(n));
}

/// Write bytes as `Debug` writes a byte slice.
pub fn render_bytes(b: &[u8]) -> (r: String)
    ensures
        r@ == bytes_debug(b@),
{
    let mut out = String::from_str("[");
    let mut i: usize = 0;
    while i < b.len()
        invariant
            i <= b@.len(),
            out@ == "["@ + bytes_list(b@.take(i as int)),
        decreases b@.len() - i,
    {
        if i > 0 {
            out.append(", ");
        }
        push_byte(&mut out, b[i]);
        assert(b@.take(i + 1).drop_last() =~= b@.take(i as int));
        assert(out@ =~= "["@ + bytes_list(b@.take(i + 1)));
        i = i + 1;
    }
    assert(b@.take(b@.len() as int) =~= b@);
    out.append("]");
    out
}

fn product(name: &str, value: String) -> (r: Product)
    ensures
        r.name@ == name@,
        r.value@ == value@,
{
    Product { name: name.to_owned(), value }
}

/// The converted form of every shorthand.
pub enum PredicateView {
    Path(PathPredicate),
    Bytes(Seq<u8>),
    Text(Seq<char>),
    TextPred(StrPredicateView),
}

/// Whether the predicate holds of what was observed at a path. Content
/// predicates fail when the content could not be read, and text predicates
/// fail when it is not valid UTF-8.
pub open spec fn holds(p: PredicateView, st: PathState) -> bool {
    match p {
        PredicateView::Path(q) => path_holds(q, st),
        PredicateView::Bytes(b) => match st.content {
            Ok(c) => c@ == b,
            Err(_) => false,
        },
        PredicateView::Text(t) => decoded(st.content) == Some(t),
        PredicateView::TextPred(q) => match decoded(st.content) {
            Some(t) => str_holds(q, t),
            None => false,
        },
    }
}

pub open spec fn content_description(p: PredicateView) -> Seq<char> {
    match p {
        PredicateView::Path(q) => path_description(q),
        PredicateView::Bytes(_) => "file content == expected bytes"@,
        PredicateView::Text(_) => "file content == expected text"@,
        PredicateView::TextPred(_) => "file content as text"@,
    }
}

pub open spec fn leaf_shape(predicate: Seq<char>, result: bool, products: Seq<(Seq<char>, Seq<char>)>) -> CaseShape {
    CaseShape { predicate, result, products, children: Seq::empty() }
}

/// The case that explains why `p` evaluated to `expected` on `st`.
pub open spec fn case_spec(p: PredicateView, expected: bool, st: PathState) -> CaseShape {
    let d = content_description(p);
    let var = ("var"@, st.path@);
    match p {
        PredicateView::Path(_) => leaf_shape(d, expected, seq![var]),
        _ => match st.content {
            Err(e) => leaf_shape(d, expected, seq![var, ("error"@, e@)]),
            Ok(c) => match p {
                PredicateView::Bytes(b) => leaf_shape(
                    d,
                    expected,
                    seq![var, ("expected"@, bytes_debug(b)), ("actual"@, bytes_debug(c@))],
                ),
                _ => if !valid_utf8(c@) {
                    leaf_shape(d, expected, seq![var, ("error"@, "invalid UTF-8"@)])
                } else {
                    match p {
                        PredicateView::Text(t) => if decode_utf8(c@) != t {
                            leaf_shape(
                                d,
                                expected,
                                seq![var, ("diff"@, text_diff(decode_utf8(c@), t))],
                            )
                        } else {
                            leaf_shape(d, expected, seq![var])
                        },
                        PredicateView::TextPred(q) => CaseShape {
                            predicate: d,
                            result: expected,
                            products: seq![var],
                            children: seq![
                                LeafShape {
                                    predicate: str_description(q),
                                    result: expected,
                                    products: seq![("var"@, decode_utf8(c@))],
                                },
                            ],
                        },
                        _ => leaf_shape(d, expected, seq![var]),
                    }
                },
            },
        },
    }
}

fn var_product(st: &PathState) -> (r: Product)
    ensures
        r.name@ == "var"@,
        r.value@ == st.path@,
{
    product("var", st.path.clone())
}

fn leaf_case(predicate: &str, result: bool, products: Vec<Product>) -> (r: Case)
    ensures
        r.predicate@ == predicate@,
        r.result == result,
        r.products@ == products@,
        r.children@.len() == 0,
{
    Case { predicate: predicate.to_owned(), result, products, children: Vec::new() }
}

/// The case of a content predicate whose content could not be read.
fn unreadable_case(predicate: &str, expected: bool, st: &PathState, error: &String) -> (r: Case)
    ensures
        case_matches(
            r,
            leaf_shape(predicate@, expected, seq![("var"@, st.path@), ("error"@, error@)]),
        ),
{
    let mut ps: Vec<Product> = Vec::new();
    ps.push(var_product(st));
    ps.push(product("error", error.clone()));
    leaf_case(predicate, expected, ps)
}

/// The case of a text predicate whose content is not valid UTF-8.
fn undecodable_case(predicate: &str, expected: bool, st: &PathState) -> (r: Case)
    ensures
        case_matches(
            r,
            leaf_shape(predicate@, expected, seq![("var"@, st.path@), ("error"@, "invalid UTF-8"@)]),
        ),
{
    let mut ps: Vec<Product> = Vec::new();
    ps.push(var_product(st));
    ps.push(product("error", "invalid UTF-8".to_owned()));
    leaf_case(predicate, expected, ps)
}

/// The case of a byte comparison on readable content, given how the expected
/// and the actual bytes are written.
pub fn bytes_case(st: &PathState, expected: bool, expected_bytes: String, actual_bytes: String) -> (r:
    Case)
    ensures
        case_matches(
            r,
            leaf_shape(
                "file content == expected bytes"@,
                expected,
                seq![
                    ("var"@, st.path@),
                    ("expected"@, expected_bytes@),
                    ("actual"@, actual_bytes@),
                ],
            ),
        ),
{
    let mut ps: Vec<Product> = Vec::new();
    ps.push(var_product(st));
    ps.push(product("expected", expected_bytes));
    ps.push(product("actual", actual_bytes));
    leaf_case("file content == expected bytes", expected, ps)
}

/// The case of a text comparison on decoded content, given the line diff
/// from the file's text to the expected text when they differ.
pub fn text_case(st: &PathState, expected: bool, diff: Option<String>) -> (r: Case)
    ensures
        case_matches(
            r,
            leaf_shape(
                "file content == expected text"@,
                expected,
                match diff {
                    Some(d) => seq![("var"@, st.path@), ("diff"@, d@)],
                    None => seq![("var"@, st.path@)],
                },
            ),
        ),
{
    let mut ps: Vec<Product> = Vec::new();
    ps.push(var_product(st));
    match diff {
        Some(d) => {
            ps.push(product("diff", d));
        },
        None => {},
    }
    leaf_case("file content == expected text", expected, ps)
}

impl PathPredicate {
    /// The case that shows this predicate evaluating to `expected` on `st`,
    /// if it does.
    pub fn find_case(&self, expected: bool, st: &PathState) -> (r: Option<Case>)
        ensures
            r is Some <==> path_holds(*self, *st) == expected,
            r matches Some(c) ==> case_matches(
                c,
                case_spec(PredicateView::Path(*self), expected, *st),
            ),
    {
        if self.eval(st) != expected {
            return None;
        }
        let mut ps: Vec<Product> = Vec::new();
        ps.push(var_product(st));
        Some(Case { predicate: self.description(), result: expected, products: ps, children: Vec::new() })
    }
}

/// The file's content must equal these bytes exactly.
#[derive(Clone, Debug)]
pub struct BytesContentPathPredicate {
    expected: Vec<u8>,
}

impl View for BytesContentPathPredicate {
    type V = Seq<u8>;

    closed spec fn view(&self) -> Seq<u8> {
        self.expected@
    }
}

impl BytesContentPathPredicate {
    pub fn new(expected: &[u8]) -> (r: Self)
        ensures
            r@ == expected@,
    {
        BytesContentPathPredicate { expected: slice_to_vec(expected) }
    }

    pub fn eval(&self, st: &PathState) -> (r: bool)
        ensures
            r == holds(PredicateView::Bytes(self@), *st),
    {
        match &st.content {
            Ok(c) => bytes_equal(c.as_slice(), self.expected.as_slice()),
            Err(_) => false,
        }
    }

    /// The case that shows this predicate evaluating to `expected` on `st`,
    /// if it does.
    pub fn find_case(&self, expected: bool, st: &PathState) -> (r: Option<Case>)
        ensures
            r is Some <==> holds(PredicateView::Bytes(self@), *st) == expected,
            r matches Some(c) ==> case_matches(
                c,
                case_spec(PredicateView::Bytes(self@), expected, *st),
            ),
    {
        if self.eval(st) != expected {
            return None;
        }
        let d = "file content == expected bytes";
        match &st.content {
            Err(e) => Some(unreadable_case(d, expected, st, e)),
            Ok(c) => Some(
                bytes_case(
                    st,
                    expected,
                    render_bytes(self.expected.as_slice()),
                    render_bytes(c.as_slice()),
                ),
            ),
        }
    }
}

/// Whether two byte sequences are equal.
fn bytes_equal(a: &[u8], b: &[u8]) -> (r: bool)
    ensures
        r == (a@ == b@),
{
    if a.len() != b.len() {
        return false;
    }
    let mut i: usize = 0;
    while i < a.len()
        invariant
            a@.len() == b@.len(),
            i <= a@.len(),
            a@.subrange(0, i as int) =~= b@.subrange(0, i as int),
        decreases a@.len() - i,
    {
        if a[i] != b[i] {
            assert(a@[i as int] != b@[i as int]);
            return false;
        }
        i = i + 1;
    }
    assert(a@ =~= a@.subrange(0, i as int));
    assert(b@ =~= b@.subrange(0, i as int));
    true
}

/// The file's content, decoded as UTF-8, must equal this text exactly.
#[derive(Clone, Debug)]
pub struct StrContentPathPredicate {
    expected: String,
}

impl View for StrContentPathPredicate {
    type V = Seq<char>;

    closed spec fn view(&self) -> Seq<char> {
        self.expected@
    }
}

impl StrContentPathPredicate {
    pub fn new(expected: &str) -> (r: Self)
        ensures
            r@ == expected@,
    {
        StrContentPathPredicate { expected: expected.to_owned() }
    }

    pub fn eval(&self, st: &PathState) -> (r: bool)
        ensures
            r == holds(PredicateView::Text(self@), *st),
    {
        match &st.content {
            Ok(c) => match decode_text(c.as_slice()) {
                Some(t) => text_equal(t, self.expected.as_str()),
                None => false,
            },
            Err(_) => false,
        }
    }

    /// The case that shows this predicate evaluating to `expected` on `st`,
    /// if it does. When the texts differ, it carries the line diff from the
    /// file's text (lines marked `-`) to the expected text (lines marked `+`).
    pub fn find_case(&self, expected: bool, st: &PathState) -> (r: Option<Case>)
        ensures
            r is Some <==> holds(PredicateView::Text(self@), *st) == expected,
            r matches Some(c) ==> case_matches(
                c,
                case_spec(PredicateView::Text(self@), expected, *st),
            ),
    {
        if self.eval(st) != expected {
            return None;
        }
        let d = "file content == expected text";
        match &st.content {
            Err(e) => Some(unreadable_case(d, expected, st, e)),
            Ok(c) => match decode_text(c.as_slice()) {
                None => Some(undecodable_case(d, expected, st)),
                Some(t) => Some(text_case(st, expected, diff_text(t, self.expected.as_str()))),
            },
        }
    }
}

/// Whether two texts are equal.
fn text_equal(a: &str, b: &str) -> (r: bool)
    ensures
        r == (a@ == b@),
{
    let n = a.unicode_len();
    if n != b.unicode_len() {
        return false;
    }
    let mut i: usize = 0;
    while i < n
        invariant
            n == a@.len(),
            a@.len() == b@.len(),
            i <= n,
            a@.subrange(0, i as int) =~= b@.subrange(0, i as int),
        decreases n - i,
    {
        if a.get_char(i) != b.get_char(i) {
            assert(a@[i as int] != b@[i as int]);
            return false;
        }
        i = i + 1;
    }
    assert(a@ =~= a@.subrange(0, i as int));
    assert(b@ =~= b@.subrange(0, i as int));
    true
}

/// The file's content, decoded as UTF-8, must satisfy a text predicate.
#[derive(Clone, Debug)]
pub struct StrPathPredicate {
    inner: StrPredicate,
}

impl View for StrPathPredicate {
    type V = StrPredicateView;

    closed spec fn view(&self) -> StrPredicateView {
        self.inner@
    }
}

impl StrPathPredicate {
    pub fn new(inner: StrPredicate) -> (r: Self)
        ensures
            r@ == inner@,
    {
        StrPathPredicate { inner }
    }

    pub fn eval(&self, st: &PathState) -> (r: bool)
        ensures
            r == holds(PredicateView::TextPred(self@), *st),
    {
        match &st.content {
            Ok(c) => match decode_text(c.as_slice()) {
                Some(t) => self.inner.eval(t),
                None => false,
            },
            Err(_) => false,
        }
    }

    /// The case that shows this predicate evaluating to `expected` on `st`,
    /// if it does, with the text predicate's own case as its child.
    pub fn find_case(&self, expected: bool, st: &PathState) -> (r: Option<Case>)
        ensures
            r is Some <==> holds(PredicateView::TextPred(self@), *st) == expected,
            r matches Some(c) ==> case_matches(
                c,
                case_spec(PredicateView::TextPred(self@), expected, *st),
            ),
    {
        if self.eval(st) != expected {
            return None;
        }
        let d = "file content as text";
        match &st.content {
            Err(e) => Some(unreadable_case(d, expected, st, e)),
            Ok(c) => match decode_text(c.as_slice()) {
                None => Some(undecodable_case(d, expected, st)),
                Some(t) => {
                    let mut inner_ps: Vec<Product> = Vec::new();
                    inner_ps.push(product("var", t.to_owned()));
                    let child = Case {
                        predicate: self.inner.description(),
                        result: expected,
                        products: inner_ps,
                        children: Vec::new(),
                    };
                    let mut ps: Vec<Product> = Vec::new();
                    ps.push(var_product(st));
                    let mut children: Vec<Case> = Vec::new();
                    children.push(child);
                    Some(Case { predicate: d.to_owned(), result: expected, products: ps, children })
                },
            },
        }
    }
}

/// The uniform predicate that every shorthand converts into.
#[derive(Clone, Debug)]
pub enum ConvertedPredicate {
    Path(PathPredicate),
    Bytes(BytesContentPathPredicate),
    Str(StrContentPathPredicate),
    StrPred(StrPathPredicate),
}

impl View for ConvertedPredicate {
    type V = PredicateView;

    open spec fn view(&self) -> PredicateView {
        match self {
            ConvertedPredicate::Path(p) => PredicateView::Path(*p),
            ConvertedPredicate::Bytes(p) => PredicateView::Bytes(p@),
            ConvertedPredicate::Str(p) => PredicateView::Text(p@),
            ConvertedPredicate::StrPred(p) => PredicateView::TextPred(p@),
        }
    }
}

impl ConvertedPredicate {
    /// Evaluate against what was observed at a path.
    pub fn eval(&self, st: &PathState) -> (r: bool)
        ensures
            r == holds(self@, *st),
    {
        match self {
            ConvertedPredicate::Path(p) => p.eval(st),
            ConvertedPredicate::Bytes(p) => p.eval(st),
            ConvertedPredicate::Str(p) => p.eval(st),
            ConvertedPredicate::StrPred(p) => p.eval(st),
        }
    }

    /// The case that shows this predicate evaluating to `expected` on `st`,
    /// if it does: `find_case(false, ..)` explains a failure,
    /// `find_case(true, ..)` a success.
    pub fn find_case(&self, expected: bool, st: &PathState) -> (r: Option<Case>)
        ensures
            r is Some <==> holds(self@, *st) == expected,
            r matches Some(c) ==> case_matches(c, case_spec(self@, expected, *st)),
    {
        match self {
            ConvertedPredicate::Path(p) => p.find_case(expected, st),
            ConvertedPredicate::Bytes(p) => p.find_case(expected, st),
            ConvertedPredicate::Str(p) => p.find_case(expected, st),
            ConvertedPredicate::StrPred(p) => p.find_case(expected, st),
        }
    }
}

/// Conversion of a shorthand into the uniform path predicate.
pub trait IntoPathPredicate {
    /// The predicate this shorthand stands for.
    spec fn spec_predicate(&self) -> PredicateView;

    /// Convert to a predicate for testing a path.
    fn into_path(self) -> (r: ConvertedPredicate)
        ensures
            r@ == self.spec_predicate(),
    ;
}

impl IntoPathPredicate for ConvertedPredicate {
    open spec fn spec_predicate(&self) -> PredicateView {
        self@
    }

    fn into_path(self) -> (r: ConvertedPredicate) {
        self
    }
}

impl IntoPathPredicate for PathPredicate {
    open spec fn spec_predicate(&self) -> PredicateView {
        PredicateView::Path(*self)
    }

    fn into_path(self) -> (r: ConvertedPredicate) {
        ConvertedPredicate::Path(self)
    }
}

impl IntoPathPredicate for StrPredicate {
    open spec fn spec_predicate(&self) -> PredicateView {
        PredicateView::TextPred(self@)
    }

    fn into_path(self) -> (r: ConvertedPredicate) {
        ConvertedPredicate::StrPred(StrPathPredicate::new(self))
    }
}

impl<'a> IntoPathPredicate for &'a [u8] {
    open spec fn spec_predicate(&self) -> PredicateView {
        PredicateView::Bytes(self@)
    }

    fn into_path(self) -> (r: ConvertedPredicate) {
        ConvertedPredicate::Bytes(BytesContentPathPredicate::new(self))
    }
}

impl IntoPathPredicate for Vec<u8> {
    open spec fn spec_predicate(&self) -> PredicateView {
        PredicateView::Bytes(self@)
    }

    fn into_path(self) -> (r: ConvertedPredicate) {
        ConvertedPredicate::Bytes(BytesContentPathPredicate { expected: self })
    }
}

impl<'a> IntoPathPredicate for &'a str {
    open spec fn spec_predicate(&self) -> PredicateView {
        PredicateView::Text(self@)
    }

    fn into_path(self) -> (r: ConvertedPredicate) {
        ConvertedPredicate::Str(StrContentPathPredicate::new(self))
    }
}

impl<'a> IntoPathPredicate for &'a String {
    open spec fn spec_predicate(&self) -> PredicateView {
        PredicateView::Text(self@)
    }

    fn into_path(self) -> (r: ConvertedPredicate) {
        ConvertedPredicate::Str(StrContentPathPredicate::new(self.as_str()))
    }
}

impl IntoPathPredicate for String {
    open spec fn spec_predicate(&self) -> PredicateView {
        PredicateView::Text(self@)
    }

    fn into_path(self) -> (r: ConvertedPredicate) {
        ConvertedPredicate::Str(StrContentPathPredicate { expected: self })
    }
}

/// The lines of the products `ps`, each after `indent`.
pub open spec fn product_lines(ps: Seq<Product>, indent: Seq<char>) -> Seq<char>
    decreases ps.len(),
{
    if ps.len() == 0 {
        Seq::empty()
    } else {
        product_lines(ps.drop_last(), indent) + indent + ps.last().name@ + ": "@
            + ps.last().value@ + "\n"@
    }
}

/// A case's own lines: its predicate after `indent`, then its products
/// indented one step further.
pub open spec fn case_lines(c: Case, indent: Seq<char>, inner: Seq<char>) -> Seq<char> {
    indent + c.predicate@ + "\n"@ + product_lines(c.products@, inner)
}

pub open spec fn children_lines(cs: Seq<Case>) -> Seq<char>
    decreases cs.len(),
{
    if cs.len() == 0 {
        Seq::empty()
    } else {
        children_lines(cs.drop_last()) + case_lines(cs.last(), "  "@, "    "@)
    }
}

/// The text of a case and of its direct children.
pub open spec fn tree_text(c: Case) -> Seq<char> {
    case_lines(c, Seq::empty(), "  "@) + children_lines(c.children@)
}

fn push_products(out: &mut String, ps: &Vec<Product>, indent: &str)
    ensures
        final(out)@ == old(out)@ + product_lines(ps@, indent@),
{
    let mut i: usize = 0;
    while i < ps.len()
        invariant
            i <= ps@.len(),
            out@ == old(out)@ + product_lines(ps@.take(i as int), indent@),
        decreases ps@.len() - i,
    {
        out.append(indent);
        out.append(ps[i].name.as_str());
        out.append(": ");
        out.append(ps[i].value.as_str());
        out.append("\n");
        assert(ps@.take(i + 1).drop_last() =~= ps@.take(i as int));
        assert(out@ =~= old(out)@ + product_lines(ps@.take(i + 1), indent@));
        i = i + 1;
    }
    assert(ps@.take(ps@.len() as int) =~= ps@);
}

fn push_case(out: &mut String, c: &Case, indent: &str, inner: &str)
    ensures
        final(out)@ == old(out)@ + case_lines(*c, indent@, inner@),
{
    out.append(indent);
    out.append(c.predicate.as_str());
    out.append("\n");
    push_products(out, &c.products, inner);
    assert(out@ =~= old(out)@ + case_lines(*c, indent@, inner@));
}

/// Render a case and its direct children as an indented tree.
pub fn render(c: &Case) -> (r: String)
    ensures
        r@ == tree_text(*c),
{
    proof {
        reveal_strlit("");
    }
    let mut out = String::new();
    push_case(&mut out, c, "", "  ");
    let mut i: usize = 0;
    while i < c.children.len()
        invariant
            i <= c.children@.len(),
            out@ == case_lines(*c, Seq::empty(), "  "@) + children_lines(c.children@.take(i as int)),
        decreases c.children@.len() - i,
    {
        push_case(&mut out, &c.children[i], "  ", "    ");
        assert(c.children@.take(i + 1).drop_last() =~= c.children@.take(i as int));
        assert(out@ =~= case_lines(*c, Seq::empty(), "  "@) + children_lines(c.children@.take(i + 1)));
        i = i + 1;
    }
    assert(c.children@.take(c.children@.len() as int) =~= c.children@);
    out
}

/// The message of a failed assertion: the explanation tree, then the path.
pub open spec fn failure_text(c: Case, path: Seq<char>) -> Seq<char> {
    "Unexpected file, failed "@ + tree_text(c) + "path="@ + path
}

/// Check `pred` against what was observed at a path. `None` when it holds;
/// otherwise the message that explains the failure.
pub fn explain_failure(pred: &ConvertedPredicate, st: &PathState) -> (r: Option<String>)
    ensures
        r is Some <==> !holds(pred@, *st),
        r matches Some(m) ==> exists|c: Case|
            #![trigger case_matches(c, case_spec(pred@, false, *st))]
            case_matches(c, case_spec(pred@, false, *st)) && m@ == failure_text(c, st.path@),
{
    match pred.find_case(false, st) {
        None => None,
        Some(c) => {
            let m = String::from_str("Unexpected file, failed ").concat(render(&c).as_str()).concat(
                "path=",
            ).concat(st.path.as_str());
            assert(m@ =~= failure_text(c, st.path@));
            Some(m)
        },
    }
}

} // verus!
