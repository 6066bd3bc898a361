use vstd::prelude::*;
use vstd::string::{StrSliceExecFns, StringExecFns};

use stylist_core::ast::{RuleBlockContent, ScopeContent, Sheet, StringFragment};

use crate::attributes::AttributeList;
use crate::text::{copy_string, owned, str_eq, utf8};

verus! {

// ---------------------------------------------------------------------
// The stylesheet as the converter reads it
// ---------------------------------------------------------------------

/// One entry of a rule block: a declaration (name and value fragments) or
/// anything else.
pub enum CssContent {
    StyleAttr(String, Vec<String>),
    Other,
}

/// One top-level entry of a stylesheet: a block (its selectors, each a list
/// of fragments, and its contents) or anything else.
pub enum CssScope {
    Block(Vec<Vec<String>>, Vec<CssContent>),
    Other,
}

pub enum CssContentView {
    StyleAttr(Seq<char>, Seq<Seq<char>>),
    Other,
}

pub enum CssScopeView {
    Block(Seq<Seq<Seq<char>>>, Seq<CssContentView>),
    Other,
}

pub open spec fn strings_view(v: Seq<String>) -> Seq<Seq<char>> {
    v.map_values(|s: String| s@)
}

impl View for CssContent {
    type V = CssContentView;

    open spec fn view(&self) -> CssContentView {
        match self {
            CssContent::StyleAttr(k, v) => CssContentView::StyleAttr(k@, strings_view(v@)),
            CssContent::Other => CssContentView::Other,
        }
    }
}

impl View for CssScope {
    type V = CssScopeView;

    open spec fn view(&self) -> CssScopeView {
        match self {
            CssScope::Block(c, ct) => CssScopeView::Block(
                c@.map_values(|sel: Vec<String>| strings_view(sel@)),
                ct@.map_values(|x: CssContent| x@),
            ),
            CssScope::Other => CssScopeView::Other,
        }
    }
}

pub open spec fn scopes_view(v: Seq<CssScope>) -> Seq<CssScopeView> {
    v.map_values(|s: CssScope| s@)
}

/// What stylist's parser makes of a stylesheet: its top-level entries, or
/// the parser's error text.
pub uninterp spec fn stylist_parse(css: Seq<char>) -> Result<Seq<CssScopeView>, Seq<char>>;

/// Parses `css` with stylist and hands back what the converter reads.
#[verifier::external_body]
fn parse_stylesheet(css: &str) -> (r: Result<Vec<CssScope>, String>)
    ensures
        match r {
            Ok(v) => stylist_parse(css@) == Ok::<Seq<CssScopeView>, Seq<char>>(scopes_view(v@)),
            Err(e) => stylist_parse(css@) == Err::<Seq<CssScopeView>, Seq<char>>(e@),
        },
{
    let text = |f: &StringFragment| f.inner.to_string();
    let sheet = css.parse::<Sheet>().map_err(|e| e.to_string())?;
    Ok(sheet.iter().map(|scope| match scope {
        ScopeContent::Block(b) => CssScope::Block(
            b.condition.iter().map(|s| s.fragments.iter().map(text).collect()).collect(),
            b.content.iter().map(|c| match c {
                RuleBlockContent::StyleAttr(a) => CssContent::StyleAttr(a.key.to_string(), a.value.iter().map(text).collect()),
                _ => CssContent::Other,
            }).collect(),
        ),
        ScopeContent::Rule(_) => CssScope::Other,
    }).collect())
}

// ---------------------------------------------------------------------
// The rules it produces
// ---------------------------------------------------------------------

#[derive(Debug, PartialEq, Eq)]
pub struct SelectorText {
    pub value: String,
}

#[derive(Debug, PartialEq, Eq)]
pub struct Declaration {
    pub name: String,
    pub value: String,
}

/// One converted style rule.
#[derive(Debug, PartialEq, Eq)]
pub struct StyleRule {
    pub rule_type: &'static str,
    pub selector_text: SelectorText,
    pub style: Vec<Declaration>,
    pub variables: AttributeList,
}

/// A style rule as plain values: its selector and its declarations.
pub struct StyleRuleView {
    pub selector: Seq<char>,
    pub style: Seq<(Seq<char>, Seq<char>)>,
}

pub open spec fn rule_matches(r: StyleRule, v: StyleRuleView) -> bool {
    &&& r.rule_type@ == "StyleRule"@
    &&& r.selector_text.value@ == v.selector
    &&& r.style@.len() == v.style.len()
    &&& forall|i: int|
        0 <= i < v.style.len() ==> (#[trigger] r.style@[i]).name@ == v.style[i].0
            && r.style@[i].value@ == v.style[i].1
    &&& r.variables@ == Map::<Seq<char>, Seq<char>>::empty()
}

pub open spec fn rules_match(r: Seq<StyleRule>, v: Seq<StyleRuleView>) -> bool {
    &&& r.len() == v.len()
    &&& forall|i: int| 0 <= i < v.len() ==> rule_matches(#[trigger] r[i], v[i])
}

// ---------------------------------------------------------------------
// Character classes
// ---------------------------------------------------------------------

pub open spec fn is_ident_char(c: char) -> bool {
    ||| 48 <= c as u32 <= 57
    ||| 65 <= c as u32 <= 90
    ||| 97 <= c as u32 <= 122
    ||| c == '-'
    ||| c == '_'
}

fn ident_char(c: char) -> (r: bool)
    ensures
        r == is_ident_char(c),
{
    let v = c as u32;
    (48 <= v && v <= 57) || (65 <= v && v <= 90) || (97 <= v && v <= 122) || c == '-' || c == '_'
}

/// The characters of `s`.
fn chars_of(s: &str) -> (r: Vec<char>)
    ensures
        r@ == s@,
{
    let n = s.unicode_len();
    let mut r: Vec<char> = Vec::new();
    let mut i: usize = 0;
    while i < n
        invariant
            n == s@.len(),
            i <= n,
            r@ == s@.subrange(0, i as int),
        decreases n - i,
    {
        r.push(s.get_char(i));
        i = i + 1;
        proof {
            assert(r@ =~= s@.subrange(0, i as int));
        }
    }
    proof {
        assert(r@ =~= s@);
    }
    r
}

/// `s` holds `${`, the start of a stylist interpolation.
pub open spec fn has_interp(s: Seq<char>) -> bool {
    exists|i: int| 0 <= i && i + 1 < s.len() && s[i] == '$' && #[trigger] s[i + 1] == '{'
}

fn contains_interpolation(s: &str) -> (r: bool)
    ensures
        r == has_interp(s@),
{
    let cs = chars_of(s);
    let n = cs.len();
    let mut i: usize = 0;
    while i < n
        invariant
            cs@ == s@,
            n == cs@.len(),
            i <= n,
            forall|j: int| 0 <= j < i && j + 1 < n ==> !(cs@[j] == '$' && #[trigger] cs@[j + 1] == '{'),
        decreases n - i,
    {
        if i + 1 < n && cs[i] == '$' && cs[i + 1] == '{' {
            return true;
        }
        i = i + 1;
    }
    proof {
        if has_interp(s@) {
            let j = choose|j: int| 0 <= j && j + 1 < s@.len() && s@[j] == '$' && #[trigger] s@[j + 1] == '{';
            assert(!(cs@[j] == '$' && cs@[j + 1] == '{'));
        }
    }
    false
}

// ---------------------------------------------------------------------
// Scope tokens
// ---------------------------------------------------------------------

/// Where the scan of a selector stands: bracket depth, open quote and
/// whether the previous character escaped this one.
pub struct ScanState {
    pub depth: nat,
    pub quote: Option<char>,
    pub escaped: bool,
}

pub open spec fn scan_start() -> ScanState {
    ScanState { depth: 0, quote: None, escaped: false }
}

/// `:root` starts at `i` and is not followed by an identifier character.
pub open spec fn root_at(s: Seq<char>, i: int) -> bool {
    &&& i + 5 <= s.len()
    &&& s[i] == ':' && s[i + 1] == 'r' && s[i + 2] == 'o' && s[i + 3] == 'o' && s[i + 4] == 't'
    &&& i + 5 == s.len() || !is_ident_char(s[i + 5])
}

/// The length of the scope token (`&` or `:root`) at `i` outside quotes and
/// brackets, or zero.
pub open spec fn token_len(s: Seq<char>, i: int) -> int {
    if s[i] == '&' {
        1
    } else if s[i] == ':' && root_at(s, i) {
        5
    } else {
        0
    }
}

/// The state after `s[i]` when it is no scope token.
pub open spec fn scan_next(st: ScanState, c: char) -> ScanState {
    if st.escaped {
        ScanState { escaped: false, ..st }
    } else if c == '\\' {
        ScanState { escaped: true, ..st }
    } else if st.quote is Some {
        if Some(c) == st.quote {
            ScanState { quote: None, ..st }
        } else {
            st
        }
    } else if c == '\'' || c == '"' {
        ScanState { quote: Some(c), ..st }
    } else if c == '[' {
        ScanState { depth: st.depth + 1, ..st }
    } else if c == ']' {
        ScanState { depth: if st.depth == 0 { 0 } else { (st.depth - 1) as nat }, ..st }
    } else {
        st
    }
}

/// At `i`, in state `st`, a scope token is replaced.
pub open spec fn token_here(s: Seq<char>, i: int, st: ScanState) -> bool {
    &&& !st.escaped
    &&& s[i] != '\\'
    &&& st.quote is None
    &&& s[i] != '\'' && s[i] != '"' && s[i] != '[' && s[i] != ']'
    &&& st.depth == 0
    &&& token_len(s, i) != 0
}

/// The selector from `i` on with every scope token outside quotes and
/// attribute brackets replaced by `class`.
pub open spec fn scoped_from(s: Seq<char>, i: int, st: ScanState, class: Seq<char>) -> Seq<char>
    decreases s.len() - i,
{
    if i < 0 || i >= s.len() {
        Seq::empty()
    } else if token_here(s, i, st) {
        class + scoped_from(s, i + token_len(s, i), st, class)
    } else {
        seq![s[i]] + scoped_from(s, i + 1, scan_next(st, s[i]), class)
    }
}

/// Some scope token is replaced from `i` on.
pub open spec fn replaces_from(s: Seq<char>, i: int, st: ScanState) -> bool
    decreases s.len() - i,
{
    if i < 0 || i >= s.len() {
        false
    } else if token_here(s, i, st) {
        true
    } else {
        replaces_from(s, i + 1, scan_next(st, s[i]))
    }
}

/// Replaces the scope tokens (`&`, and `:root` not followed by an identifier
/// character) outside quotes, escapes and attribute brackets by
/// `scoped_class`.  Says whether any was replaced.
pub fn replace_scope_tokens(selector: &str, scoped_class: &str) -> (r: (String, bool))
    ensures
        r.1 == replaces_from(selector@, 0, scan_start()),
        r.1 ==> r.0@ == scoped_from(selector@, 0, scan_start(), scoped_class@),
        !r.1 ==> r.0@ == selector@,
{
    let cs = chars_of(selector);
    let ghost s = selector@;
    let ghost cls = scoped_class@;
    let n = cs.len();
    let mut output = String::new();
    let mut copied_until: usize = 0;
    let mut bracket_depth: usize = 0;
    let mut quote: Option<char> = None;
    let mut escaped = false;
    let mut replaced = false;
    let mut index: usize = 0;
    let ghost mut st = scan_start();
    while index < n
        invariant
            cs@ == s,
            s == selector@,
            cls == scoped_class@,
            n == s.len(),
            copied_until <= index <= n,
            bracket_depth == st.depth,
            bracket_depth <= index,
            quote == st.quote,
            escaped == st.escaped,
            output@ + s.subrange(copied_until as int, index as int) + scoped_from(s, index as int, st, cls)
                == scoped_from(s, 0, scan_start(), cls),
            replaces_from(s, 0, scan_start()) == (replaced || replaces_from(s, index as int, st)),
            !replaced ==> copied_until == 0 && output@.len() == 0,
        decreases n - index,
    {
        let c = cs[index];
        let ghost i = index as int;
        let mut tok: usize = 0;
        if escaped {
            escaped = false;
        } else if c == '\\' {
            escaped = true;
        } else if quote.is_some() {
            if Some(c) == quote {
                quote = None;
            }
        } else if c == '\'' || c == '"' {
            quote = Some(c);
        } else if c == '[' {
            bracket_depth = bracket_depth + 1;
        } else if c == ']' {
            bracket_depth = if bracket_depth == 0 {
                0
            } else {
                bracket_depth - 1
            };
        } else if bracket_depth != 0 {
        } else if c == '&' {
            tok = 1;
        } else if c == ':' && n - index >= 5 && cs[index + 1] == 'r' && cs[index + 2] == 'o'
            && cs[index + 3] == 'o' && cs[index + 4] == 't' && (n - index == 5 || !ident_char(
            cs[index + 5],
        )) {
            tok = 5;
        }
        if tok == 0 {
            proof {
                assert(!token_here(s, i, st));
                let a = output@;
                let b = s.subrange(copied_until as int, i);
                let rest = scoped_from(s, i + 1, scan_next(st, s[i]), cls);
                assert(s.subrange(copied_until as int, i + 1) =~= b + seq![s[i]]);
                assert(a + b + (seq![s[i]] + rest) =~= a + (b + seq![s[i]]) + rest);
                st = scan_next(st, c);
            }
            index = index + 1;
        } else {
            proof {
                assert(token_here(s, i, st));
                assert(tok == token_len(s, i));
            }
            let ghost out0 = output@;
            let chunk = selector.substring_char(copied_until, index);
            output.append(chunk);
            output.append(scoped_class);
            proof {
                let bseg = s.subrange(copied_until as int, i);
                let rest = scoped_from(s, i + tok, st, cls);
                assert(chunk@ == bseg);
                assert(s.subrange(i + tok, i + tok) =~= Seq::<char>::empty());
                assert(output@ + s.subrange(i + tok, i + tok) + rest =~= out0 + bseg + (cls + rest));
            }
            index = index + tok;
            copied_until = index;
            replaced = true;
        }
    }
    proof {
        assert(s.subrange(copied_until as int, n as int) + scoped_from(s, n as int, st, cls) =~= s.subrange(copied_until as int, n as int));
    }
    if !replaced {
        proof {
            assert(s.subrange(0, n as int) =~= s);
        }
        return (owned(selector), false);
    }
    let rest = selector.substring_char(copied_until, n);
    output.append(rest);
    (output, true)
}

// ---------------------------------------------------------------------
// Class names, fragments and blocks
// ---------------------------------------------------------------------

pub open spec fn is_ascii_alpha(b: u8) -> bool {
    (65 <= b <= 90) || (97 <= b <= 122)
}

pub open spec fn is_ascii_digit(b: u8) -> bool {
    48 <= b <= 57
}

/// A class name the converter scopes rules with: ASCII letters, digits, `-`
/// and `_`, starting like a CSS identifier, and not `-` alone.
pub open spec fn class_ok(b: Seq<u8>) -> bool {
    &&& b.len() > 0
    &&& is_ascii_alpha(b[0]) || b[0] == 45 || b[0] == 95
    &&& b[0] == 45 ==> b.len() > 1 && !is_ascii_digit(b[1])
    &&& forall|i: int|
        1 <= i < b.len() ==> is_ascii_alpha(#[trigger] b[i]) || is_ascii_digit(b[i]) || b[i] == 45
            || b[i] == 95
}

/// Why `validate_class` refuses a class name with bytes `b`.
pub open spec fn class_refusal(b: Seq<u8>) -> Seq<char> {
    if b.len() == 0 {
        "class must not be empty"@
    } else {
        "class must use ASCII letters, digits, '-' or '_', start like a CSS identifier, and not be '-' alone"@
    }
}

/// Accepts a class name, or says why not.
pub fn validate_class(class: &str) -> (r: Result<(), String>)
    ensures
        r is Ok <==> class_ok(utf8(class@)),
        r matches Err(e) ==> e@ == class_refusal(utf8(class@)),
{
    let bytes = class.as_bytes();
    if bytes.len() == 0 {
        return Err(owned("class must not be empty"));
    }
    let first = bytes[0];
    let second_digit = bytes.len() > 1 && 48 <= bytes[1] && bytes[1] <= 57;
    let mut ok = ((65 <= first && first <= 90) || (97 <= first && first <= 122) || first == 45
        || first == 95) && !(first == 45 && (bytes.len() == 1 || second_digit));
    let mut i: usize = 1;
    while i < bytes.len()
        invariant
            bytes@ == utf8(class@),
            1 <= i <= bytes@.len(),
            ok ==> forall|j: int|
                1 <= j < i ==> is_ascii_alpha(#[trigger] bytes@[j]) || is_ascii_digit(bytes@[j])
                    || bytes@[j] == 45 || bytes@[j] == 95,
            !ok ==> !class_ok(bytes@),
            ok ==> (is_ascii_alpha(bytes@[0]) || bytes@[0] == 45 || bytes@[0] == 95) && (bytes@[0]
                == 45 ==> bytes@.len() > 1 && !is_ascii_digit(bytes@[1])),
        decreases bytes@.len() - i,
    {
        let b = bytes[i];
        if !((65 <= b && b <= 90) || (97 <= b && b <= 122) || (48 <= b && b <= 57) || b == 45
            || b == 95) {
            ok = false;
        }
        i = i + 1;
    }
    if !ok {
        return Err(
            owned(
                "class must use ASCII letters, digits, '-' or '_', start like a CSS identifier, and not be '-' alone",
            ),
        );
    }
    Ok(())
}

/// The concatenation of `s` in order.
pub open spec fn concat_all(s: Seq<Seq<char>>) -> Seq<char>
    decreases s.len(),
{
    if s.len() == 0 {
        Seq::empty()
    } else {
        concat_all(s.drop_last()) + s.last()
    }
}

/// The fragments joined, unless one holds an interpolation.
pub open spec fn join_spec(frags: Seq<Seq<char>>) -> Result<Seq<char>, Seq<char>> {
    if exists|i: int| 0 <= i < frags.len() && has_interp(#[trigger] frags[i]) {
        Err("Stylist interpolation is not supported"@)
    } else {
        Ok(concat_all(frags))
    }
}

/// Joins the fragments of a selector or a value.
pub fn join_fragments(fragments: &Vec<String>) -> (r: Result<String, String>)
    ensures
        match join_spec(strings_view(fragments@)) {
            Ok(v) => r matches Ok(s) && s@ == v,
            Err(m) => r matches Err(e) && e@ == m,
        },
{
    let ghost fs = strings_view(fragments@);
    let mut output = String::new();
    let mut i: usize = 0;
    while i < fragments.len()
        invariant
            fs == strings_view(fragments@),
            i <= fragments@.len(),
            output@ == concat_all(fs.subrange(0, i as int)),
            forall|j: int| 0 <= j < i ==> !has_interp(#[trigger] fs[j]),
        decreases fragments@.len() - i,
    {
        if contains_interpolation(fragments[i].as_str()) {
            proof {
                assert(fs[i as int] == fragments@[i as int]@);
                assert(has_interp(fs[i as int]));
            }
            return Err(owned("Stylist interpolation is not supported"));
        }
        proof {
            assert(fs[i as int] == fragments@[i as int]@);
        }
        output.append(fragments[i].as_str());
        proof {
            assert(fs.subrange(0, i + 1).drop_last() =~= fs.subrange(0, i as int));
        }
        i = i + 1;
    }
    proof {
        assert(fs.subrange(0, i as int) =~= fs);
    }
    Ok(output)
}

/// `. ` followed by `class`.
pub open spec fn dotted(class: Seq<char>) -> Seq<char> {
    seq!['.'] + class
}

/// One selector of a block, scoped under `class`.
pub open spec fn selector_spec(frags: Seq<Seq<char>>, class: Seq<char>) -> Result<Seq<char>, Seq<char>> {
    match join_spec(frags) {
        Err(e) => Err(e),
        Ok(cond) => if cond.len() == 0 {
            Err("selector must not be empty"@)
        } else if replaces_from(cond, 0, scan_start()) {
            Ok(scoped_from(cond, 0, scan_start(), dotted(class)))
        } else if cond[0] == ':' {
            Ok(dotted(class) + cond)
        } else {
            Ok(dotted(class) + seq![' '] + cond)
        },
    }
}

/// Every selector scoped, or the first error.
pub open spec fn selectors_spec(conds: Seq<Seq<Seq<char>>>, class: Seq<char>) -> Result<Seq<Seq<char>>, Seq<char>>
    decreases conds.len(),
{
    if conds.len() == 0 {
        Ok(Seq::empty())
    } else {
        match selectors_spec(conds.drop_last(), class) {
            Err(e) => Err(e),
            Ok(p) => match selector_spec(conds.last(), class) {
                Err(e) => Err(e),
                Ok(x) => Ok(p.push(x)),
            },
        }
    }
}

/// The selectors joined by `, `.
pub open spec fn comma_joined(s: Seq<Seq<char>>) -> Seq<char>
    decreases s.len(),
{
    if s.len() == 0 {
        Seq::empty()
    } else if s.len() == 1 {
        s[0]
    } else {
        comma_joined(s.drop_last()) + seq![',', ' '] + s.last()
    }
}

/// One declaration, or why it is refused.
pub open spec fn declaration_spec(c: CssContentView) -> Result<(Seq<char>, Seq<char>), Seq<char>> {
    match c {
        CssContentView::Other => Err("nested blocks and at-rules are not supported"@),
        CssContentView::StyleAttr(k, v) => match join_spec(v) {
            Err(e) => Err(e),
            Ok(value) => if k.len() == 0 || value.len() == 0 {
                Err("declaration names and values must not be empty"@)
            } else {
                Ok((k, value))
            },
        },
    }
}

pub open spec fn declarations_spec(cs: Seq<CssContentView>) -> Result<Seq<(Seq<char>, Seq<char>)>, Seq<char>>
    decreases cs.len(),
{
    if cs.len() == 0 {
        Ok(Seq::empty())
    } else {
        match declarations_spec(cs.drop_last()) {
            Err(e) => Err(e),
            Ok(p) => match declaration_spec(cs.last()) {
                Err(e) => Err(e),
                Ok(d) => Ok(p.push(d)),
            },
        }
    }
}

/// The rule a block converts to, or why it is refused.
pub open spec fn block_spec(
    conds: Seq<Seq<Seq<char>>>,
    content: Seq<CssContentView>,
    class: Seq<char>,
) -> Result<StyleRuleView, Seq<char>> {
    let selector: Result<Seq<char>, Seq<char>> = if conds.len() == 0 {
        Ok(dotted(class))
    } else {
        match selectors_spec(conds, class) {
            Err(e) => Err(e),
            Ok(list) => Ok(comma_joined(list)),
        }
    };
    match selector {
        Err(e) => Err(e),
        Ok(sel) => match declarations_spec(content) {
            Err(e) => Err(e),
            Ok(ds) => if ds.len() == 0 {
                Err("each rule must contain at least one declaration"@)
            } else {
                Ok(StyleRuleView { selector: sel, style: ds })
            },
        },
    }
}

fn dotted_class(class: &str) -> (r: String)
    ensures
        r@ == dotted(class@),
{
    let mut s = owned(".");
    proof {
        reveal_strlit(".");
    }
    s.append(class);
    proof {
        assert(s@ =~= dotted(class@));
    }
    s
}

fn scope_selector(fragments: &Vec<String>, class: &str) -> (r: Result<String, String>)
    ensures
        match selector_spec(strings_view(fragments@), class@) {
            Ok(v) => r matches Ok(s) && s@ == v,
            Err(m) => r matches Err(e) && e@ == m,
        },
{
    let condition = match join_fragments(fragments) {
        Ok(c) => c,
        Err(e) => return Err(e),
    };
    if condition.as_str().is_empty() {
        return Err(owned("selector must not be empty"));
    }
    let scoped_class = dotted_class(class);
    let (scoped, replaced_scope) = replace_scope_tokens(condition.as_str(), scoped_class.as_str());
    if replaced_scope {
        return Ok(scoped);
    }
    let first = condition.as_str().get_char(0);
    if first == ':' {
        let mut out = scoped_class;
        out.append(condition.as_str());
        Ok(out)
    } else {
        let mut out = scoped_class;
        out.append(" ");
        proof {
            reveal_strlit(" ");
        }
        out.append(condition.as_str());
        proof {
            assert(out@ =~= dotted(class@) + seq![' '] + condition@);
        }
        Ok(out)
    }
}

fn convert_declaration(content: &CssContent) -> (r: Result<Declaration, String>)
    ensures
        match declaration_spec(content@) {
            Ok(d) => r matches Ok(x) && x.name@ == d.0 && x.value@ == d.1,
            Err(m) => r matches Err(e) && e@ == m,
        },
{
    match content {
        CssContent::Other => Err(owned("nested blocks and at-rules are not supported")),
        CssContent::StyleAttr(key, value) => {
            let name = copy_string(key);
            let value = match join_fragments(value) {
                Ok(v) => v,
                Err(e) => return Err(e),
            };
            if name.as_str().is_empty() || value.as_str().is_empty() {
                return Err(owned("declaration names and values must not be empty"));
            }
            Ok(Declaration { name, value })
        },
    }
}

/// Converts one block into a rule scoped under `class`.
pub fn convert_block(conditions: &Vec<Vec<String>>, content: &Vec<CssContent>, class: &str) -> (r:
    Result<StyleRule, String>)
    ensures
        match block_spec(
            conditions@.map_values(|sel: Vec<String>| strings_view(sel@)),
            content@.map_values(|x: CssContent| x@),
            class@,
        ) {
            Ok(v) => r matches Ok(rule) && rule_matches(rule, v),
            Err(m) => r matches Err(e) && e@ == m,
        },
{
    let ghost conds = conditions@.map_values(|sel: Vec<String>| strings_view(sel@));
    let ghost cts = content@.map_values(|x: CssContent| x@);
    let ghost mut list: Seq<Seq<char>> = Seq::empty();
    let selector: String = if conditions.len() == 0 {
        dotted_class(class)
    } else {
        let mut joined = String::new();
        let mut i: usize = 0;
        while i < conditions.len()
            invariant
                conds == conditions@.map_values(|sel: Vec<String>| strings_view(sel@)),
                i <= conditions@.len(),
                selectors_spec(conds.subrange(0, i as int), class@) == Ok::<Seq<Seq<char>>, Seq<char>>(list),
                joined@ == comma_joined(list),
                list.len() == i,
            decreases conditions@.len() - i,
        {
            proof {
                assert(conds.subrange(0, i + 1).drop_last() =~= conds.subrange(0, i as int));
                assert(conds.subrange(0, i + 1).last() == strings_view(conditions@[i as int]@));
            }
            let one = match scope_selector(&conditions[i], class) {
                Ok(s) => s,
                Err(e) => {
                    proof {
                        lemma_selectors_prefix_err(conds, i as int, class@);
                    }
                    return Err(e);
                },
            };
            if i > 0 {
                joined.append(", ");
                proof {
                    reveal_strlit(", ");
                }
            }
            joined.append(one.as_str());
            proof {
                let l2 = list.push(one@);
                assert(l2.drop_last() =~= list);
                if i > 0 {
                    assert(joined@ =~= comma_joined(list) + seq![',', ' '] + one@);
                } else {
                    assert(joined@ =~= one@);
                }
                list = l2;
            }
            i = i + 1;
        }
        proof {
            assert(conds.subrange(0, i as int) =~= conds);
        }
        joined
    };
    proof {
        assert(conds.len() == 0 ==> selector@ == dotted(class@));
        assert(conds.len() > 0 ==> selectors_spec(conds, class@) == Ok::<Seq<Seq<char>>, Seq<char>>(
            list,
        ) && selector@ == comma_joined(list));
    }
    let mut declarations: Vec<Declaration> = Vec::new();
    let mut i: usize = 0;
    let ghost mut ds: Seq<(Seq<char>, Seq<char>)> = Seq::empty();
    while i < content.len()
        invariant
            cts == content@.map_values(|x: CssContent| x@),
            conds == conditions@.map_values(|sel: Vec<String>| strings_view(sel@)),
            conds.len() == 0 ==> selector@ == dotted(class@),
            conds.len() > 0 ==> selectors_spec(conds, class@) == Ok::<Seq<Seq<char>>, Seq<char>>(
                list,
            ) && selector@ == comma_joined(list),
            i <= content@.len(),
            declarations_spec(cts.subrange(0, i as int)) == Ok::<Seq<(Seq<char>, Seq<char>)>, Seq<char>>(ds),
            declarations@.len() == ds.len(),
            forall|j: int|
                0 <= j < ds.len() ==> (#[trigger] declarations@[j]).name@ == ds[j].0
                    && declarations@[j].value@ == ds[j].1,
        decreases content@.len() - i,
    {
        proof {
            assert(cts.subrange(0, i + 1).drop_last() =~= cts.subrange(0, i as int));
            assert(cts.subrange(0, i + 1).last() == content@[i as int]@);
        }
        let d = match convert_declaration(&content[i]) {
            Ok(d) => d,
            Err(e) => {
                proof {
                    lemma_declarations_prefix_err(cts, i as int);
                }
                return Err(e);
            },
        };
        proof {
            ds = ds.push((d.name@, d.value@));
        }
        declarations.push(d);
        i = i + 1;
    }
    proof {
        assert(cts.subrange(0, i as int) =~= cts);
    }
    if declarations.len() == 0 {
        return Err(owned("each rule must contain at least one declaration"));
    }
    Ok(
        StyleRule {
            rule_type: "StyleRule",
            selector_text: SelectorText { value: selector },
            style: declarations,
            variables: AttributeList::new(),
        },
    )
}

/// An error at a prefix is the error of the whole list.
proof fn lemma_selectors_prefix_err(conds: Seq<Seq<Seq<char>>>, i: int, class: Seq<char>)
    requires
        0 <= i < conds.len(),
        selectors_spec(conds.subrange(0, i + 1), class) is Err,
    ensures
        selectors_spec(conds, class) == selectors_spec(conds.subrange(0, i + 1), class),
    decreases conds.len() - i,
{
    if i + 1 < conds.len() {
        assert(conds.subrange(0, i + 2).drop_last() =~= conds.subrange(0, i + 1));
        lemma_selectors_prefix_err(conds, i + 1, class);
    } else {
        assert(conds.subrange(0, i + 1) =~= conds);
    }
}

proof fn lemma_declarations_prefix_err(cs: Seq<CssContentView>, i: int)
    requires
        0 <= i < cs.len(),
        declarations_spec(cs.subrange(0, i + 1)) is Err,
    ensures
        declarations_spec(cs) == declarations_spec(cs.subrange(0, i + 1)),
    decreases cs.len() - i,
{
    if i + 1 < cs.len() {
        assert(cs.subrange(0, i + 2).drop_last() =~= cs.subrange(0, i + 1));
        lemma_declarations_prefix_err(cs, i + 1);
    } else {
        assert(cs.subrange(0, i + 1) =~= cs);
    }
}

// ---------------------------------------------------------------------
// Whole stylesheets
// ---------------------------------------------------------------------

/// The block appended to every stylesheet so that a complete parse is
/// observable.
pub open spec fn end_marker_text() -> Seq<char> {
    "\n#__stylist_lynx_cssc_end__ { --stylist-lynx-cssc-end: 1; }\n"@
}

/// The scope is the appended marker block.
pub open spec fn is_end_marker_spec(s: CssScopeView) -> bool {
    match s {
        CssScopeView::Block(cond, content) => {
            &&& cond.len() == 1
            &&& cond[0].len() == 1
            &&& content.len() == 1
            &&& content[0] matches CssContentView::StyleAttr(k, v) && v.len() == 1 && cond[0][0]
                == "#__stylist_lynx_cssc_end__"@ && k == "--stylist-lynx-cssc-end"@ && v[0] == "1"@
        },
        CssScopeView::Other => false,
    }
}

fn is_end_marker(scope: &CssScope) -> (r: bool)
    ensures
        r == is_end_marker_spec(scope@),
{
    match scope {
        CssScope::Other => false,
        CssScope::Block(cond, content) => {
            if cond.len() != 1 || cond[0].len() != 1 || content.len() != 1 {
                return false;
            }
            match &content[0] {
                CssContent::StyleAttr(key, value) => {
                    if value.len() != 1 {
                        return false;
                    }
                    str_eq(cond[0][0].as_str(), "#__stylist_lynx_cssc_end__") && str_eq(
                        key.as_str(),
                        "--stylist-lynx-cssc-end",
                    ) && str_eq(value[0].as_str(), "1")
                },
                CssContent::Other => false,
            }
        },
    }
}

/// The rules of the scopes before the marker, or the first error.
pub open spec fn rules_spec(scopes: Seq<CssScopeView>, class: Seq<char>) -> Result<Seq<StyleRuleView>, Seq<char>>
    decreases scopes.len(),
{
    if scopes.len() == 0 {
        Ok(Seq::empty())
    } else {
        match rules_spec(scopes.drop_last(), class) {
            Err(e) => Err(e),
            Ok(p) => match scopes.last() {
                CssScopeView::Other => Err("at-rules are not supported"@),
                CssScopeView::Block(c, ct) => match block_spec(c, ct, class) {
                    Err(e) => Err(e),
                    Ok(r) => Ok(p.push(r)),
                },
            },
        }
    }
}

/// What a parsed stylesheet converts to: it must end with the marker, hold
/// only blocks before it, and produce at least one rule.
pub open spec fn convert_parsed_spec(scopes: Seq<CssScopeView>, class: Seq<char>) -> Result<Seq<StyleRuleView>, Seq<char>> {
    if scopes.len() == 0 || !is_end_marker_spec(scopes.last()) {
        Err("failed to parse the complete Stylist CSS input"@)
    } else {
        match rules_spec(scopes.drop_last(), class) {
            Err(e) => Err(e),
            Ok(rules) => if rules.len() == 0 {
                Err("the stylesheet must produce at least one rule"@)
            } else {
                Ok(rules)
            },
        }
    }
}

proof fn lemma_rules_prefix_err(scopes: Seq<CssScopeView>, i: int, class: Seq<char>)
    requires
        0 <= i < scopes.len(),
        rules_spec(scopes.subrange(0, i + 1), class) is Err,
    ensures
        rules_spec(scopes, class) == rules_spec(scopes.subrange(0, i + 1), class),
    decreases scopes.len() - i,
{
    if i + 1 < scopes.len() {
        assert(scopes.subrange(0, i + 2).drop_last() =~= scopes.subrange(0, i + 1));
        lemma_rules_prefix_err(scopes, i + 1, class);
    } else {
        assert(scopes.subrange(0, i + 1) =~= scopes);
    }
}

/// Converts a parsed stylesheet, whose last entry must be the end marker.
pub fn convert_parsed(scopes: &Vec<CssScope>, class: &str) -> (r: Result<Vec<StyleRule>, String>)
    ensures
        match convert_parsed_spec(scopes_view(scopes@), class@) {
            Ok(v) => r matches Ok(rules) && rules_match(rules@, v),
            Err(m) => r matches Err(e) && e@ == m,
        },
{
    let ghost sv = scopes_view(scopes@);
    let n = scopes.len();
    if n == 0 || !is_end_marker(&scopes[n - 1]) {
        return Err(owned("failed to parse the complete Stylist CSS input"));
    }
    let ghost body = sv.drop_last();
    proof {
        assert(sv.last() == scopes@[n - 1]@);
    }
    let mut rules: Vec<StyleRule> = Vec::new();
    let ghost mut views: Seq<StyleRuleView> = Seq::empty();
    let mut i: usize = 0;
    while i < n - 1
        invariant
            sv == scopes_view(scopes@),
            n == scopes@.len(),
            n > 0,
            sv.len() == n,
            is_end_marker_spec(sv.last()),
            body == sv.drop_last(),
            i <= n - 1,
            rules_spec(body.subrange(0, i as int), class@) == Ok::<Seq<StyleRuleView>, Seq<char>>(views),
            rules_match(rules@, views),
        decreases n - 1 - i,
    {
        proof {
            assert(body.subrange(0, i + 1).drop_last() =~= body.subrange(0, i as int));
            assert(body.subrange(0, i + 1).last() == scopes@[i as int]@);
        }
        match &scopes[i] {
            CssScope::Other => {
                proof {
                    lemma_rules_prefix_err(body, i as int, class@);
                }
                return Err(owned("at-rules are not supported"));
            },
            CssScope::Block(cond, content) => {
                match convert_block(cond, content, class) {
                    Ok(rule) => {
                        proof {
                            let v = block_spec(
                                cond@.map_values(|sel: Vec<String>| strings_view(sel@)),
                                content@.map_values(|x: CssContent| x@),
                                class@,
                            )->Ok_0;
                            views = views.push(v);
                        }
                        rules.push(rule);
                    },
                    Err(e) => {
                        proof {
                            lemma_rules_prefix_err(body, i as int, class@);
                        }
                        return Err(e);
                    },
                }
            },
        }
        i = i + 1;
    }
    proof {
        assert(body.subrange(0, i as int) =~= body);
    }
    if rules.len() == 0 {
        return Err(owned("the stylesheet must produce at least one rule"));
    }
    Ok(rules)
}

/// Converts a static stylist stylesheet into style rules scoped under
/// `class`.
pub fn convert(css: &str, class: &str) -> (r: Result<Vec<StyleRule>, String>)
    ensures
        !class_ok(utf8(class@)) ==> (r matches Err(e) && e@ == class_refusal(utf8(class@))),
        class_ok(utf8(class@)) && has_interp(css@) ==> (r matches Err(e) && e@
            == "Stylist interpolation is not supported"@),
        class_ok(utf8(class@)) && !has_interp(css@) ==> match stylist_parse(css@ + end_marker_text()) {
            Err(m) => r matches Err(e) && e@ == "failed to parse Stylist CSS: "@ + m,
            Ok(scopes) => match convert_parsed_spec(scopes, class@) {
                Ok(v) => r matches Ok(rules) && rules_match(rules@, v),
                Err(m) => r matches Err(e) && e@ == m,
            },
        },
{
    match validate_class(class) {
        Ok(()) => {},
        Err(e) => return Err(e),
    }
    if contains_interpolation(css) {
        return Err(owned("Stylist interpolation is not supported"));
    }
    let mut css_with_marker = owned(css);
    css_with_marker.append("\n#__stylist_lynx_cssc_end__ { --stylist-lynx-cssc-end: 1; }\n");
    let scopes = match parse_stylesheet(css_with_marker.as_str()) {
        Ok(s) => s,
        Err(error) => {
            let mut m = owned("failed to parse Stylist CSS: ");
            m.append(error.as_str());
            return Err(m);
        },
    };
    convert_parsed(&scopes, class)
}

// ---------------------------------------------------------------------
// The command line
// ---------------------------------------------------------------------

/// The converter's command line: input stylesheet, class and output file.
#[derive(Debug, PartialEq, Eq)]
pub struct CliArguments {
    pub input: String,
    pub class: String,
    pub output: String,
}

/// The option slots after reading the arguments from `i` on, or the first
/// error.
pub open spec fn cli_from(
    args: Seq<Seq<char>>,
    i: int,
    input: Option<Seq<char>>,
    class: Option<Seq<char>>,
    output: Option<Seq<char>>,
) -> Result<(Seq<char>, Seq<char>, Seq<char>), Seq<char>>
    decreases args.len() - i,
{
    if i >= args.len() {
        if input is None {
            Err("missing required --input"@)
        } else if class is None {
            Err("missing required --class"@)
        } else if output is None {
            Err("missing required --output"@)
        } else {
            Ok((input->0, class->0, output->0))
        }
    } else {
        let a = args[i];
        if a != "--input"@ && a != "--class"@ && a != "--output"@ {
            Err("unexpected argument: "@ + a)
        } else if (a == "--input"@ && input is Some) || (a == "--class"@ && class is Some) || (a
            == "--output"@ && output is Some) {
            Err("duplicate argument: "@ + a)
        } else if i + 1 >= args.len() {
            Err("missing value for "@ + a)
        } else {
            let v = Some(args[i + 1]);
            if a == "--input"@ {
                cli_from(args, i + 2, v, class, output)
            } else if a == "--class"@ {
                cli_from(args, i + 2, input, v, output)
            } else {
                cli_from(args, i + 2, input, class, v)
            }
        }
    }
}

pub open spec fn opt_string_view(s: Option<String>) -> Option<Seq<char>> {
    match s {
        Some(v) => Some(v@),
        None => None,
    }
}

fn prefixed(prefix: &str, s: &str) -> (r: String)
    ensures
        r@ == prefix@ + s@,
{
    let mut m = owned(prefix);
    m.append(s);
    m
}

impl CliArguments {
    /// Reads exactly `--input`, `--class` and `--output`, each once, each
    /// with a value.
    pub fn parse(args: &Vec<String>) -> (r: Result<CliArguments, String>)
        ensures
            match cli_from(args@.map_values(|s: String| s@), 0, None, None, None) {
                Ok((i, c, o)) => r matches Ok(x) && x.input@ == i && x.class@ == c && x.output@ == o,
                Err(m) => r matches Err(e) && e@ == m,
            },
    {
        let ghost av = args@.map_values(|s: String| s@);
        let mut input: Option<String> = None;
        let mut class: Option<String> = None;
        let mut output: Option<String> = None;
        let mut i: usize = 0;
        while i < args.len()
            invariant
                av == args@.map_values(|s: String| s@),
                i <= args@.len(),
                cli_from(av, 0, None, None, None) == cli_from(
                    av,
                    i as int,
                    opt_string_view(input),
                    opt_string_view(class),
                    opt_string_view(output),
                ),
            decreases args@.len() - i,
        {
            let a = args[i].as_str();
            proof {
                assert(av[i as int] == a@);
            }
            let is_input = str_eq(a, "--input");
            let is_class = str_eq(a, "--class");
            let is_output = str_eq(a, "--output");
            if !is_input && !is_class && !is_output {
                return Err(prefixed("unexpected argument: ", a));
            }
            if (is_input && input.is_some()) || (is_class && class.is_some()) || (is_output
                && output.is_some()) {
                return Err(prefixed("duplicate argument: ", a));
            }
            if i + 1 >= args.len() {
                return Err(prefixed("missing value for ", a));
            }
            proof {
                assert(av[i + 1] == args@[i + 1]@);
            }
            let v = Some(copy_string(&args[i + 1]));
            if is_input {
                input = v;
            } else if is_class {
                class = v;
            } else {
                output = v;
            }
            i = i + 2;
        }
        let input = match input {
            Some(v) => v,
            None => return Err(owned("missing required --input")),
        };
        let class = match class {
            Some(v) => v,
            None => return Err(owned("missing required --class")),
        };
        let output = match output {
            Some(v) => v,
            None => return Err(owned("missing required --output")),
        };
        Ok(CliArguments { input, class, output })
    }
}

/// A selector with no scope token is scoped under the class as a
/// descendant: `.class`, a space, then the selector, so that `#main`
/// becomes `.class #main` and never `.class#main`.  Only a selector that
/// starts with a pseudo-class (`:`) attaches to the class itself; an empty
/// selector is refused.
pub proof fn lemma_unscoped_selector_is_a_descendant(frags: Seq<Seq<char>>, class: Seq<char>)
    requires
        join_spec(frags) is Ok,
        !replaces_from(join_spec(frags)->Ok_0, 0, scan_start()),
    ensures
        ({
            let cond = join_spec(frags)->Ok_0;
            &&& cond.len() == 0 ==> selector_spec(frags, class) is Err
            &&& cond.len() != 0 && cond[0] != ':' ==> selector_spec(frags, class) == Ok::<
                Seq<char>,
                Seq<char>,
            >(seq!['.'] + class + seq![' '] + cond)
            &&& cond.len() != 0 && cond[0] == ':' ==> selector_spec(frags, class) == Ok::<
                Seq<char>,
                Seq<char>,
            >(seq!['.'] + class + cond)
        }),
{
}

} // verus!
