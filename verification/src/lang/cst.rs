//! The syntax of one source file and the record that parsing makes of it.
//!
//! A file is a sequence of statements, separated by white space only:
//!
//! ```text
//! import "<path>"                         another file to read
//! app <name>                              the application's name
//! use <namespace>                         a namespace the file refers to
//! namespace <name> where                  the namespace of the declarations
//! entity <duration> <Name>                an entity (`struct` is accepted too)
//! <name> :: <Domain> -> <Codomain>        a function of an entity
//! ```
//!
//! A domain or codomain is a name, or a namespace, a dot and a name.

use vstd::prelude::*;
use vstd::string::StringExecFns;
use vstd::string::StrSliceExecFns;

verus! {

/// Where a text stops being a file of declarations.
#[derive(Debug, Clone, Copy, PartialEq, Eq, Structural)]
pub struct SyntaxError {
    /// The offset, in characters, of the character or statement that was not
    /// understood.
    pub offset: usize,
}

// ---------------------------------------------------------------------------
// Characters
// ---------------------------------------------------------------------------

pub open spec fn is_space(c: char) -> bool {
    c == ' ' || c == '\t' || c == '\n' || c == '\r'
}

pub open spec fn is_ident_start(c: char) -> bool {
    ('a' <= c && c <= 'z') || ('A' <= c && c <= 'Z') || c == '_'
}

pub open spec fn is_ident_part(c: char) -> bool {
    is_ident_start(c) || ('0' <= c && c <= '9')
}

/// The end of the longest run of identifier characters that starts at `i`.
pub open spec fn ident_end(s: Seq<char>, i: int) -> int
    decreases s.len() - i,
{
    if 0 <= i < s.len() && is_ident_part(s[i]) {
        ident_end(s, i + 1)
    } else {
        i
    }
}

/// The position of the first double quote at or after `i`, or the end of the
/// text where there is none.
pub open spec fn text_end(s: Seq<char>, i: int) -> int
    decreases s.len() - i,
{
    if 0 <= i < s.len() && s[i] != '"' {
        text_end(s, i + 1)
    } else {
        i
    }
}

// ---------------------------------------------------------------------------
// Tokens
// ---------------------------------------------------------------------------

/// What specifications see of a token.
pub enum TokenView {
    /// A word: a letter or underscore, then letters, digits and underscores.
    Ident(Seq<char>),
    /// The characters between two double quotes.
    Text(Seq<char>),
    /// `::`
    DoubleColon,
    /// `->`
    Arrow,
    /// `.`
    Dot,
}

enum Token {
    Ident(String),
    Text(String),
    DoubleColon,
    Arrow,
    Dot,
}

impl View for Token {
    type V = TokenView;

    closed spec fn view(&self) -> TokenView {
        match self {
            Token::Ident(w) => TokenView::Ident(w@),
            Token::Text(w) => TokenView::Text(w@),
            Token::DoubleColon => TokenView::DoubleColon,
            Token::Arrow => TokenView::Arrow,
            Token::Dot => TokenView::Dot,
        }
    }
}

/// The tokens of a list, each with the offset it starts at.
spec fn placed(tokens: &Vec<(Token, usize)>) -> Seq<(TokenView, int)> {
    Seq::new(tokens.len() as nat, |k: int| (tokens@[k].0@, tokens@[k].1 as int))
}

/// The token that starts at the character `i` of `s`, which is no white
/// space, and the position behind it.
pub open spec fn token_at(s: Seq<char>, i: int) -> Option<(TokenView, int)> {
    let c = s[i];
    if is_ident_start(c) {
        let e = ident_end(s, i + 1);
        Some((TokenView::Ident(s.subrange(i, e)), e))
    } else if c == '"' {
        let e = text_end(s, i + 1);
        if e < s.len() {
            Some((TokenView::Text(s.subrange(i + 1, e)), e + 1))
        } else {
            None
        }
    } else if c == ':' && i + 1 < s.len() && s[i + 1] == ':' {
        Some((TokenView::DoubleColon, i + 2))
    } else if c == '-' && i + 1 < s.len() && s[i + 1] == '>' {
        Some((TokenView::Arrow, i + 2))
    } else if c == '.' {
        Some((TokenView::Dot, i + 1))
    } else {
        None
    }
}

/// The tokens of `s` from the character `i` on, behind those of `acc`, each
/// with the offset it starts at; or the offset of the first character that
/// starts no token.
pub open spec fn tokens_from(s: Seq<char>, i: int, acc: Seq<(TokenView, int)>) -> Result<
    Seq<(TokenView, int)>,
    int,
>
    decreases s.len() - i,
{
    if i < 0 || i >= s.len() {
        Ok(acc)
    } else if is_space(s[i]) {
        tokens_from(s, i + 1, acc)
    } else {
        match token_at(s, i) {
            Some((token, next)) => if i < next <= s.len() {
                tokens_from(s, next, acc.push((token, i)))
            } else {
                Err(i)
            },
            None => Err(i),
        }
    }
}

/// The tokens of a text.
pub open spec fn spec_tokens(s: Seq<char>) -> Result<Seq<(TokenView, int)>, int> {
    tokens_from(s, 0, Seq::empty())
}

fn space(c: char) -> (r: bool)
    ensures
        r == is_space(c),
{
    c == ' ' || c == '\t' || c == '\n' || c == '\r'
}

fn ident_start(c: char) -> (r: bool)
    ensures
        r == is_ident_start(c),
{
    (c >= 'a' && c <= 'z') || (c >= 'A' && c <= 'Z') || c == '_'
}

fn ident_part(c: char) -> (r: bool)
    ensures
        r == is_ident_part(c),
{
    ident_start(c) || (c >= '0' && c <= '9')
}

fn characters(code: &str) -> (r: Vec<char>)
    ensures
        r@ == code@,
{
    let mut v: Vec<char> = Vec::new();
    for c in it: code.chars()
        invariant
            it.seq() == code@,
            v@ == code@.take(it.index() as int),
    {
        v.push(c);
        assert(v@ =~= code@.take(it.index() + 1));
    }
    assert(v@ =~= code@);
    v
}

fn scan_ident(chars: &Vec<char>, from: usize) -> (r: usize)
    requires
        from <= chars.len(),
    ensures
        r == ident_end(chars@, from as int),
        from <= r <= chars.len(),
{
    let n = chars.len();
    let mut j = from;
    while j < n && ident_part(chars[j])
        invariant
            from <= j <= n,
            n == chars.len(),
            ident_end(chars@, from as int) == ident_end(chars@, j as int),
        decreases n - j,
    {
        j += 1;
    }
    j
}

fn scan_text(chars: &Vec<char>, from: usize) -> (r: usize)
    requires
        from <= chars.len(),
    ensures
        r == text_end(chars@, from as int),
        from <= r <= chars.len(),
{
    let n = chars.len();
    let mut j = from;
    while j < n && chars[j] != '"'
        invariant
            from <= j <= n,
            n == chars.len(),
            text_end(chars@, from as int) == text_end(chars@, j as int),
        decreases n - j,
    {
        j += 1;
    }
    j
}

/// The token at `i` and the position behind it, as `token_at` gives them.
fn next_token(code: &str, chars: &Vec<char>, i: usize) -> (r: Option<(Token, usize)>)
    requires
        chars@ == code@,
        i < chars.len(),
    ensures
        match r {
            Some((token, next)) => token_at(code@, i as int) == Some((token@, next as int)) && i
                < next <= chars.len(),
            None => token_at(code@, i as int) is None,
        },
{
    let n = chars.len();
    let c = chars[i];
    if ident_start(c) {
        let e = scan_ident(chars, i + 1);
        let word = String::from_str(code.substring_char(i, e));
        Some((Token::Ident(word), e))
    } else if c == '"' {
        let e = scan_text(chars, i + 1);
        if e < n {
            let text = String::from_str(code.substring_char(i + 1, e));
            Some((Token::Text(text), e + 1))
        } else {
            None
        }
    } else if c == ':' && i + 1 < n && chars[i + 1] == ':' {
        Some((Token::DoubleColon, i + 2))
    } else if c == '-' && i + 1 < n && chars[i + 1] == '>' {
        Some((Token::Arrow, i + 2))
    } else if c == '.' {
        Some((Token::Dot, i + 1))
    } else {
        None
    }
}

fn tokens(code: &str) -> (r: Result<Vec<(Token, usize)>, SyntaxError>)
    ensures
        match r {
            Ok(t) => spec_tokens(code@) == Ok::<Seq<(TokenView, int)>, int>(placed(&t)),
            Err(e) => spec_tokens(code@) == Err::<Seq<(TokenView, int)>, int>(e.offset as int),
        },
{
    let chars = characters(code);
    let n = chars.len();
    let mut found: Vec<(Token, usize)> = Vec::new();
    let mut i: usize = 0;
    assert(placed(&found) =~= Seq::empty());
    while i < n
        invariant
            i <= n,
            n == chars.len(),
            chars@ == code@,
            spec_tokens(code@) == tokens_from(code@, i as int, placed(&found)),
        decreases n - i,
    {
        if space(chars[i]) {
            i += 1;
        } else {
            match next_token(code, &chars, i) {
                Some((token, next)) => {
                    let ghost before = placed(&found);
                    let ghost seen = token@;
                    found.push((token, i));
                    assert(placed(&found) =~= before.push((seen, i as int)));
                    i = next;
                },
                None => {
                    return Err(SyntaxError { offset: i });
                },
            }
        }
    }
    Ok(found)
}

// ---------------------------------------------------------------------------
// Statements
// ---------------------------------------------------------------------------

/// A reference to a type: an optional namespace and a name.
pub type ReferenceView = (Option<Seq<char>>, Seq<char>);

/// A function declaration as written: its name and the references to its
/// domain and codomain.
#[derive(Debug)]
pub struct FunctionType {
    name: String,
    dom: (Option<String>, String),
    codom: (Option<String>, String),
}

/// What specifications see of a [`FunctionType`].
pub struct FunctionTypeView {
    pub name: Seq<char>,
    pub dom: ReferenceView,
    pub codom: ReferenceView,
}

impl View for FunctionType {
    type V = FunctionTypeView;

    closed spec fn view(&self) -> FunctionTypeView {
        FunctionTypeView {
            name: self.name@,
            dom: self.dom.deep_view(),
            codom: self.codom.deep_view(),
        }
    }
}

impl DeepView for FunctionType {
    type V = FunctionTypeView;

    open spec fn deep_view(&self) -> FunctionTypeView {
        self@
    }
}

fn clone_reference(reference: &(Option<String>, String)) -> (r: (Option<String>, String))
    ensures
        r.deep_view() == reference.deep_view(),
{
    let namespace = match &reference.0 {
        Some(n) => Some(n.clone()),
        None => None,
    };
    (namespace, reference.1.clone())
}

impl FunctionType {
    pub fn new(name: &str, dom: (Option<String>, String), codom: (Option<String>, String)) -> (r:
        FunctionType)
        ensures
            r@ == (FunctionTypeView {
                name: name@,
                dom: dom.deep_view(),
                codom: codom.deep_view(),
            }),
    {
        FunctionType { name: String::from_str(name), dom, codom }
    }

    pub fn name(&self) -> (r: String)
        ensures
            r@ == self@.name,
    {
        self.name.clone()
    }

    pub fn dom(&self) -> (r: (Option<String>, String))
        ensures
            r.deep_view() == self@.dom,
    {
        clone_reference(&self.dom)
    }

    pub fn codom(&self) -> (r: (Option<String>, String))
        ensures
            r.deep_view() == self@.codom,
    {
        clone_reference(&self.codom)
    }
}

/// An entity declaration as written: its name and the word that says how
/// long its instances last.
#[derive(Debug)]
pub struct EntityType {
    name: String,
    duration: String,
}

/// What specifications see of an [`EntityType`].
pub struct EntityTypeView {
    pub name: Seq<char>,
    pub duration: Seq<char>,
}

impl View for EntityType {
    type V = EntityTypeView;

    closed spec fn view(&self) -> EntityTypeView {
        EntityTypeView { name: self.name@, duration: self.duration@ }
    }
}

impl DeepView for EntityType {
    type V = EntityTypeView;

    open spec fn deep_view(&self) -> EntityTypeView {
        self@
    }
}

impl EntityType {
    fn new(name: &str, duration: &str) -> (r: EntityType)
        ensures
            r@ == (EntityTypeView { name: name@, duration: duration@ }),
    {
        EntityType { name: String::from_str(name), duration: String::from_str(duration) }
    }

    pub fn name(&self) -> (r: String)
        ensures
            r@ == self@.name,
    {
        self.name.clone()
    }
}

/// What specifications see of one statement.
pub enum CodeNodeView {
    FunctionType(FunctionTypeView),
    AppDef(Seq<char>),
    EntityType(EntityTypeView),
    Import(Seq<char>),
    Namespace(Seq<char>),
    UsedNamespace(Seq<char>),
}

/// One statement of a source file.
#[derive(Debug)]
pub enum CodeNode {
    FunctionType(FunctionType),
    AppDef(String),
    EntityType(EntityType),
    Import(String),
    Namespace(String),
    UsedNamespace(String),
}

impl View for CodeNode {
    type V = CodeNodeView;

    open spec fn view(&self) -> CodeNodeView {
        match self {
            CodeNode::FunctionType(f) => CodeNodeView::FunctionType(f@),
            CodeNode::AppDef(a) => CodeNodeView::AppDef(a@),
            CodeNode::EntityType(e) => CodeNodeView::EntityType(e@),
            CodeNode::Import(p) => CodeNodeView::Import(p@),
            CodeNode::Namespace(n) => CodeNodeView::Namespace(n@),
            CodeNode::UsedNamespace(n) => CodeNodeView::UsedNamespace(n@),
        }
    }
}

impl DeepView for CodeNode {
    type V = CodeNodeView;

    open spec fn deep_view(&self) -> CodeNodeView {
        self@
    }
}

/// The word that is the token `i`, if that token is a word.
pub open spec fn ident_at(t: Seq<(TokenView, int)>, i: int) -> Option<Seq<char>> {
    if 0 <= i < t.len() {
        match t[i].0 {
            TokenView::Ident(w) => Some(w),
            _ => None,
        }
    } else {
        None
    }
}

/// The quoted text that is the token `i`, if that token is one.
pub open spec fn text_at(t: Seq<(TokenView, int)>, i: int) -> Option<Seq<char>> {
    if 0 <= i < t.len() {
        match t[i].0 {
            TokenView::Text(w) => Some(w),
            _ => None,
        }
    } else {
        None
    }
}

/// The reference that starts at the token `i`, and the position behind it.
pub open spec fn reference_at(t: Seq<(TokenView, int)>, i: int) -> Option<(ReferenceView, int)> {
    match ident_at(t, i) {
        None => None,
        Some(first) => if i + 1 < t.len() && t[i + 1].0 is Dot {
            match ident_at(t, i + 2) {
                Some(second) => Some(((Some(first), second), i + 3)),
                None => None,
            }
        } else {
            Some(((None, first), i + 1))
        },
    }
}

/// The function declaration that starts at the token `i`, which is the word
/// `name`, and the position behind it.
pub open spec fn function_at(t: Seq<(TokenView, int)>, i: int, name: Seq<char>) -> Option<
    (CodeNodeView, int),
> {
    if i + 1 < t.len() && t[i + 1].0 is DoubleColon {
        match reference_at(t, i + 2) {
            None => None,
            Some((dom, arrow)) => if arrow < t.len() && t[arrow].0 is Arrow {
                match reference_at(t, arrow + 1) {
                    None => None,
                    Some((codom, next)) => Some(
                        (CodeNodeView::FunctionType(FunctionTypeView { name, dom, codom }), next),
                    ),
                }
            } else {
                None
            },
        }
    } else {
        None
    }
}

/// The statement that starts at the token `i`, and the position behind it.
pub open spec fn statement_at(t: Seq<(TokenView, int)>, i: int) -> Option<(CodeNodeView, int)> {
    match ident_at(t, i) {
        None => None,
        Some(word) => if word == "import"@ {
            match text_at(t, i + 1) {
                Some(path) => Some((CodeNodeView::Import(path), i + 2)),
                None => None,
            }
        } else if word == "app"@ {
            match ident_at(t, i + 1) {
                Some(name) => Some((CodeNodeView::AppDef(name), i + 2)),
                None => None,
            }
        } else if word == "use"@ {
            match ident_at(t, i + 1) {
                Some(name) => Some((CodeNodeView::UsedNamespace(name), i + 2)),
                None => None,
            }
        } else if word == "namespace"@ {
            match ident_at(t, i + 1) {
                Some(name) => if ident_at(t, i + 2) == Some("where"@) {
                    Some((CodeNodeView::Namespace(name), i + 3))
                } else {
                    None
                },
                None => None,
            }
        } else if word == "struct"@ || word == "entity"@ {
            match (ident_at(t, i + 1), ident_at(t, i + 2)) {
                (Some(duration), Some(name)) => Some(
                    (CodeNodeView::EntityType(EntityTypeView { name, duration }), i + 3),
                ),
                _ => None,
            }
        } else {
            function_at(t, i, word)
        },
    }
}

/// The statements of `t` from the token `i` on, behind those of `acc`; or
/// the offset of the first token that starts no statement.
pub open spec fn nodes_from(t: Seq<(TokenView, int)>, i: int, acc: Seq<CodeNodeView>) -> Result<
    Seq<CodeNodeView>,
    int,
>
    decreases t.len() - i,
{
    if i < 0 || i >= t.len() {
        Ok(acc)
    } else {
        match statement_at(t, i) {
            Some((node, next)) => if i < next <= t.len() {
                nodes_from(t, next, acc.push(node))
            } else {
                Err(t[i].1)
            },
            None => Err(t[i].1),
        }
    }
}

/// The statements that a sequence of tokens makes.
pub open spec fn spec_nodes(t: Seq<(TokenView, int)>) -> Result<Seq<CodeNodeView>, int> {
    nodes_from(t, 0, Seq::empty())
}

fn is_word(word: &String, expected: &str) -> (r: bool)
    ensures
        r == (word@ == expected@),
{
    *word == String::from_str(expected)
}

fn get_ident(tokens: &Vec<(Token, usize)>, i: usize) -> (r: Option<&String>)
    ensures
        match r {
            Some(w) => ident_at(placed(tokens), i as int) == Some(w@),
            None => ident_at(placed(tokens), i as int) is None,
        },
{
    if i < tokens.len() {
        match &tokens[i].0 {
            Token::Ident(w) => Some(w),
            _ => None,
        }
    } else {
        None
    }
}

fn get_text(tokens: &Vec<(Token, usize)>, i: usize) -> (r: Option<&String>)
    ensures
        match r {
            Some(w) => text_at(placed(tokens), i as int) == Some(w@),
            None => text_at(placed(tokens), i as int) is None,
        },
{
    if i < tokens.len() {
        match &tokens[i].0 {
            Token::Text(w) => Some(w),
            _ => None,
        }
    } else {
        None
    }
}

fn is_dot(tokens: &Vec<(Token, usize)>, i: usize) -> (r: bool)
    ensures
        r == (i < tokens.len() && placed(tokens)[i as int].0 is Dot),
{
    if i < tokens.len() {
        match &tokens[i].0 {
            Token::Dot => true,
            _ => false,
        }
    } else {
        false
    }
}

fn is_arrow(tokens: &Vec<(Token, usize)>, i: usize) -> (r: bool)
    ensures
        r == (i < tokens.len() && placed(tokens)[i as int].0 is Arrow),
{
    if i < tokens.len() {
        match &tokens[i].0 {
            Token::Arrow => true,
            _ => false,
        }
    } else {
        false
    }
}

fn is_double_colon(tokens: &Vec<(Token, usize)>, i: usize) -> (r: bool)
    ensures
        r == (i < tokens.len() && placed(tokens)[i as int].0 is DoubleColon),
{
    if i < tokens.len() {
        match &tokens[i].0 {
            Token::DoubleColon => true,
            _ => false,
        }
    } else {
        false
    }
}

/// Reads a reference to a type: a name, or a namespace, a dot and a name.
fn qualified_name(tokens: &Vec<(Token, usize)>, i: usize) -> (r: Option<
    ((Option<String>, String), usize),
>)
    requires
        i <= tokens.len(),
    ensures
        match r {
            Some((reference, next)) => reference_at(placed(tokens), i as int) == Some(
                (reference.deep_view(), next as int),
            ) && i < next <= tokens.len(),
            None => reference_at(placed(tokens), i as int) is None,
        },
{
    match get_ident(tokens, i) {
        None => None,
        Some(first) => {
            if is_dot(tokens, i + 1) {
                match get_ident(tokens, i + 2) {
                    Some(second) => Some(((Some(first.clone()), second.clone()), i + 3)),
                    None => None,
                }
            } else {
                Some(((None, first.clone()), i + 1))
            }
        },
    }
}

fn function_type_from_tokens(tokens: &Vec<(Token, usize)>, i: usize, name: &String) -> (r: Option<
    (CodeNode, usize),
>)
    requires
        i < tokens.len(),
    ensures
        match r {
            Some((node, next)) => function_at(placed(tokens), i as int, name@) == Some(
                (node@, next as int),
            ) && i < next <= tokens.len(),
            None => function_at(placed(tokens), i as int, name@) is None,
        },
{
    if !is_double_colon(tokens, i + 1) {
        return None;
    }
    let (dom, arrow) = match qualified_name(tokens, i + 2) {
        None => { return None; },
        Some(found) => found,
    };
    if !is_arrow(tokens, arrow) {
        return None;
    }
    let (codom, next) = match qualified_name(tokens, arrow + 1) {
        None => { return None; },
        Some(found) => found,
    };
    Some((CodeNode::FunctionType(FunctionType::new(name.as_str(), dom, codom)), next))
}

/// Reads the statement that starts at the token `i`.
fn cst_node(tokens: &Vec<(Token, usize)>, i: usize) -> (r: Option<(CodeNode, usize)>)
    requires
        i < tokens.len(),
    ensures
        match r {
            Some((node, next)) => statement_at(placed(tokens), i as int) == Some(
                (node@, next as int),
            ) && i < next <= tokens.len(),
            None => statement_at(placed(tokens), i as int) is None,
        },
{
    let word = match get_ident(tokens, i) {
        None => { return None; },
        Some(w) => w,
    };
    if is_word(word, "import") {
        match get_text(tokens, i + 1) {
            Some(path) => Some((CodeNode::Import(path.clone()), i + 2)),
            None => None,
        }
    } else if is_word(word, "app") {
        match get_ident(tokens, i + 1) {
            Some(name) => Some((CodeNode::AppDef(name.clone()), i + 2)),
            None => None,
        }
    } else if is_word(word, "use") {
        match get_ident(tokens, i + 1) {
            Some(name) => Some((CodeNode::UsedNamespace(name.clone()), i + 2)),
            None => None,
        }
    } else if is_word(word, "namespace") {
        match get_ident(tokens, i + 1) {
            Some(name) => match get_ident(tokens, i + 2) {
                Some(last) => if is_word(last, "where") {
                    Some((CodeNode::Namespace(name.clone()), i + 3))
                } else {
                    None
                },
                None => None,
            },
            None => None,
        }
    } else if is_word(word, "struct") || is_word(word, "entity") {
        match get_ident(tokens, i + 1) {
            Some(duration) => match get_ident(tokens, i + 2) {
                Some(name) => Some(
                    (CodeNode::EntityType(EntityType::new(name.as_str(), duration.as_str())), i + 3),
                ),
                None => None,
            },
            None => None,
        }
    } else {
        function_type_from_tokens(tokens, i, word)
    }
}

// ---------------------------------------------------------------------------
// The record of a file
// ---------------------------------------------------------------------------

/// What one source file declares.
#[derive(Debug)]
pub struct FileRoot {
    app_def: Option<String>,
    imports: Vec<String>,
    entity_types: Vec<EntityType>,
    function_types: Vec<FunctionType>,
    namespace: String,
    used_namespaces: Vec<String>,
}

/// What specifications see of a [`FileRoot`].
pub struct FileRootView {
    /// The application's name, where the file declares one.
    pub app_name: Option<Seq<char>>,
    /// The paths the file imports, each once, in the order of their first
    /// occurrence.
    pub imports: Seq<Seq<char>>,
    /// The entities, one of each name, in the order of their declaration.
    pub entity_types: Seq<EntityTypeView>,
    /// The functions, one of each name, in the order of their declaration.
    pub function_types: Seq<FunctionTypeView>,
    /// The namespace of the declarations; empty where the file names none.
    pub namespace: Seq<char>,
    /// The namespaces the file uses, each once.
    pub used_namespaces: Seq<Seq<char>>,
}

impl View for FileRoot {
    type V = FileRootView;

    closed spec fn view(&self) -> FileRootView {
        FileRootView {
            app_name: self.app_def.deep_view(),
            imports: self.imports.deep_view(),
            entity_types: self.entity_types.deep_view(),
            function_types: self.function_types.deep_view(),
            namespace: self.namespace@,
            used_namespaces: self.used_namespaces.deep_view(),
        }
    }
}

impl DeepView for FileRoot {
    type V = FileRootView;

    open spec fn deep_view(&self) -> FileRootView {
        self@
    }
}

/// The first of `entities`, from the position `from` on, that has the name
/// `name`.
pub open spec fn entity_named(entities: Seq<EntityTypeView>, name: Seq<char>, from: int) -> Option<
    EntityTypeView,
>
    decreases entities.len() - from,
{
    if from < 0 || from >= entities.len() {
        None
    } else if entities[from].name == name {
        Some(entities[from])
    } else {
        entity_named(entities, name, from + 1)
    }
}

/// The first of `functions`, from the position `from` on, that has the
/// name `name`.
pub open spec fn function_named(
    functions: Seq<FunctionTypeView>,
    name: Seq<char>,
    from: int,
) -> Option<FunctionTypeView>
    decreases functions.len() - from,
{
    if from < 0 || from >= functions.len() {
        None
    } else if functions[from].name == name {
        Some(functions[from])
    } else {
        function_named(functions, name, from + 1)
    }
}

/// Whether one of `entities` has the name `name`.
pub open spec fn has_entity(entities: Seq<EntityTypeView>, name: Seq<char>) -> bool {
    entity_named(entities, name, 0) is Some
}

/// Whether one of `functions` has the name `name`.
pub open spec fn has_function(functions: Seq<FunctionTypeView>, name: Seq<char>) -> bool {
    function_named(functions, name, 0) is Some
}

/// The record of a file without statements.
pub open spec fn empty_root() -> FileRootView {
    FileRootView {
        app_name: None,
        imports: Seq::empty(),
        entity_types: Seq::empty(),
        function_types: Seq::empty(),
        namespace: Seq::empty(),
        used_namespaces: Seq::empty(),
    }
}

/// The record after one more statement. Of two entities or two functions
/// of one name the first stays; of two namespace or application
/// declarations the last does.
pub open spec fn absorb(root: FileRootView, node: CodeNodeView) -> FileRootView {
    match node {
        CodeNodeView::Import(path) => if root.imports.contains(path) {
            root
        } else {
            FileRootView { imports: root.imports.push(path), ..root }
        },
        CodeNodeView::AppDef(name) => FileRootView { app_name: Some(name), ..root },
        CodeNodeView::EntityType(e) => if has_entity(root.entity_types, e.name) {
            root
        } else {
            FileRootView { entity_types: root.entity_types.push(e), ..root }
        },
        CodeNodeView::FunctionType(f) => if has_function(root.function_types, f.name) {
            root
        } else {
            FileRootView { function_types: root.function_types.push(f), ..root }
        },
        CodeNodeView::Namespace(name) => FileRootView { namespace: name, ..root },
        CodeNodeView::UsedNamespace(name) => if root.used_namespaces.contains(name) {
            root
        } else {
            FileRootView { used_namespaces: root.used_namespaces.push(name), ..root }
        },
    }
}

/// The record that a sequence of statements makes.
pub open spec fn spec_file_root(nodes: Seq<CodeNodeView>) -> FileRootView {
    nodes.fold_left(empty_root(), |root: FileRootView, node: CodeNodeView| absorb(root, node))
}

/// The statements of a text: those that its tokens make; or the offset at
/// which the text stops being a file.
pub open spec fn spec_statements(code: Seq<char>) -> Result<Seq<CodeNodeView>, int> {
    match spec_tokens(code) {
        Err(offset) => Err(offset),
        Ok(tokens) => spec_nodes(tokens),
    }
}

/// The record of a text: what its statements declare; or the offset at
/// which the text stops being a file.
pub open spec fn spec_parse(code: Seq<char>) -> Result<FileRootView, int> {
    match spec_statements(code) {
        Err(offset) => Err(offset),
        Ok(nodes) => Ok(spec_file_root(nodes)),
    }
}

fn contains_text(texts: &Vec<String>, text: &String) -> (r: bool)
    ensures
        r == texts.deep_view().contains(text@),
{
    let mut k: usize = 0;
    while k < texts.len()
        invariant
            k <= texts.len(),
            forall|j: int| 0 <= j < k ==> texts.deep_view()[j] != text@,
        decreases texts.len() - k,
    {
        if texts[k] == *text {
            assert(texts.deep_view()[k as int] == text@);
            return true;
        }
        k += 1;
    }
    false
}

fn find_entity(entities: &Vec<EntityType>, name: &String) -> (r: Option<usize>)
    ensures
        match r {
            Some(k) => k < entities.len() && entity_named(entities.deep_view(), name@, 0) == Some(
                entities@[k as int]@,
            ),
            None => entity_named(entities.deep_view(), name@, 0) is None,
        },
{
    let mut k: usize = 0;
    while k < entities.len()
        invariant
            k <= entities.len(),
            entity_named(entities.deep_view(), name@, 0) == entity_named(
                entities.deep_view(),
                name@,
                k as int,
            ),
        decreases entities.len() - k,
    {
        assert(entities.deep_view()[k as int] == entities@[k as int]@);
        if entities[k].name == *name {
            return Some(k);
        }
        k += 1;
    }
    None
}

fn find_function(functions: &Vec<FunctionType>, name: &String) -> (r: Option<usize>)
    ensures
        match r {
            Some(k) => k < functions.len() && function_named(functions.deep_view(), name@, 0)
                == Some(functions@[k as int]@),
            None => function_named(functions.deep_view(), name@, 0) is None,
        },
{
    let mut k: usize = 0;
    while k < functions.len()
        invariant
            k <= functions.len(),
            function_named(functions.deep_view(), name@, 0) == function_named(
                functions.deep_view(),
                name@,
                k as int,
            ),
        decreases functions.len() - k,
    {
        assert(functions.deep_view()[k as int] == functions@[k as int]@);
        if functions[k].name == *name {
            return Some(k);
        }
        k += 1;
    }
    None
}

fn clone_texts(texts: &Vec<String>) -> (r: Vec<String>)
    ensures
        r.deep_view() == texts.deep_view(),
{
    let mut copy: Vec<String> = Vec::new();
    let mut k: usize = 0;
    while k < texts.len()
        invariant
            k <= texts.len(),
            copy.len() == k,
            forall|j: int| 0 <= j < k ==> copy@[j]@ == texts@[j]@,
        decreases texts.len() - k,
    {
        copy.push(texts[k].clone());
        k += 1;
    }
    assert(copy.deep_view() =~= texts.deep_view());
    copy
}

impl FileRoot {
    #[verifier::type_invariant]
    pub open spec fn inv(self) -> bool {
        tidy(self@)
    }

    /// The application's name, where the file declares one.
    pub fn app_name(&self) -> (r: Option<String>)
        ensures
            r.deep_view() == self@.app_name,
    {
        match &self.app_def {
            Some(name) => Some(name.clone()),
            None => None,
        }
    }

    /// Whether the file declares an application: the entry file does.
    pub fn is_main_file(&self) -> (r: bool)
        ensures
            r == self@.app_name is Some,
    {
        match &self.app_def {
            Some(_) => true,
            None => false,
        }
    }

    /// The paths of the files that this one imports.
    pub fn import_paths(&self) -> (r: Vec<String>)
        ensures
            r.deep_view() == self@.imports,
    {
        clone_texts(&self.imports)
    }

    /// The entities that the file declares.
    pub fn entity_types(&self) -> (r: Vec<&EntityType>)
        ensures
            r.deep_view() == self@.entity_types,
    {
        let mut all: Vec<&EntityType> = Vec::new();
        let mut k: usize = 0;
        while k < self.entity_types.len()
            invariant
                k <= self.entity_types.len(),
                all.len() == k,
                forall|j: int| 0 <= j < k ==> all@[j]@ == self.entity_types@[j]@,
            decreases self.entity_types.len() - k,
        {
            all.push(&self.entity_types[k]);
            k += 1;
        }
        assert(all.deep_view() =~= self.entity_types.deep_view());
        all
    }

    /// The functions that the file declares.
    pub fn function_types(&self) -> (r: Vec<&FunctionType>)
        ensures
            r.deep_view() == self@.function_types,
    {
        let mut all: Vec<&FunctionType> = Vec::new();
        let mut k: usize = 0;
        while k < self.function_types.len()
            invariant
                k <= self.function_types.len(),
                all.len() == k,
                forall|j: int| 0 <= j < k ==> all@[j]@ == self.function_types@[j]@,
            decreases self.function_types.len() - k,
        {
            all.push(&self.function_types[k]);
            k += 1;
        }
        assert(all.deep_view() =~= self.function_types.deep_view());
        all
    }

    /// The namespace of the file's declarations.
    pub fn namespace(&self) -> (r: String)
        ensures
            r@ == self@.namespace,
    {
        self.namespace.clone()
    }

    /// The namespaces that the file uses.
    pub fn used_namespaces(&self) -> (r: Vec<String>)
        ensures
            r.deep_view() == self@.used_namespaces,
    {
        clone_texts(&self.used_namespaces)
    }

    /// The entity of the given name, where the file declares one.
    pub fn entity_type(&self, name: &str) -> (r: Option<&EntityType>)
        ensures
            r.deep_view() == entity_named(self@.entity_types, name@, 0),
    {
        match find_entity(&self.entity_types, &String::from_str(name)) {
            Some(k) => Some(&self.entity_types[k]),
            None => None,
        }
    }

    /// The function of the given name, where the file declares one.
    pub fn function_type(&self, name: &str) -> (r: Option<&FunctionType>)
        ensures
            r.deep_view() == function_named(self@.function_types, name@, 0),
    {
        match find_function(&self.function_types, &String::from_str(name)) {
            Some(k) => Some(&self.function_types[k]),
            None => None,
        }
    }
}

fn record(root: FileRoot, node: CodeNode) -> (r: FileRoot)
    ensures
        r@ == absorb(root@, node@),
{
    proof {
        use_type_invariant(&root);
        lemma_absorb_tidy(root@, node@);
    }
    let ghost before = root@;
    let FileRoot { app_def, imports, entity_types, function_types, namespace, used_namespaces } =
        root;
    let mut app_def = app_def;
    let mut imports = imports;
    let mut entity_types = entity_types;
    let mut function_types = function_types;
    let mut namespace = namespace;
    let mut used_namespaces = used_namespaces;
    match node {
        CodeNode::Import(path) => {
            if !contains_text(&imports, &path) {
                imports.push(path);
                assert(imports.deep_view() =~= before.imports.push(path@));
            }
        },
        CodeNode::AppDef(name) => {
            app_def = Some(name);
        },
        CodeNode::EntityType(e) => {
            if find_entity(&entity_types, &e.name).is_none() {
                entity_types.push(e);
                assert(entity_types.deep_view() =~= before.entity_types.push(e@));
            }
        },
        CodeNode::FunctionType(f) => {
            if find_function(&function_types, &f.name).is_none() {
                function_types.push(f);
                assert(function_types.deep_view() =~= before.function_types.push(f@));
            }
        },
        CodeNode::Namespace(name) => {
            namespace = name;
        },
        CodeNode::UsedNamespace(name) => {
            if !contains_text(&used_namespaces, &name) {
                used_namespaces.push(name);
                assert(used_namespaces.deep_view() =~= before.used_namespaces.push(name@));
            }
        },
    }
    FileRoot { app_def, imports, entity_types, function_types, namespace, used_namespaces }
}

// ---------------------------------------------------------------------------
// Parsing
// ---------------------------------------------------------------------------

/// The grammar of the declaration language.
pub struct DbParser;

impl DbParser {
    /// Reads the statements of a text, in their order; or finds the place
    /// of the first character or statement that the grammar does not allow.
    pub fn parse(code: &str) -> (r: Result<Vec<CodeNode>, SyntaxError>)
        ensures
            match r {
                Ok(nodes) => spec_statements(code@) == Ok::<Seq<CodeNodeView>, int>(
                    nodes.deep_view(),
                ),
                Err(e) => spec_statements(code@) == Err::<Seq<CodeNodeView>, int>(e.offset as int),
            },
    {
        let tokens = match tokens(code) {
            Err(e) => { return Err(e); },
            Ok(t) => t,
        };
        let n = tokens.len();
        let mut found: Vec<CodeNode> = Vec::new();
        let mut i: usize = 0;
        assert(found.deep_view() =~= Seq::empty());
        while i < n
            invariant
                i <= n,
                n == tokens.len(),
                spec_tokens(code@) == Ok::<Seq<(TokenView, int)>, int>(placed(&tokens)),
                spec_nodes(placed(&tokens)) == nodes_from(
                    placed(&tokens),
                    i as int,
                    found.deep_view(),
                ),
            decreases n - i,
        {
            match cst_node(&tokens, i) {
                Some((node, next)) => {
                    let ghost before = found.deep_view();
                    let ghost seen = node@;
                    found.push(node);
                    assert(found.deep_view() =~= before.push(seen));
                    i = next;
                },
                None => {
                    assert(placed(&tokens)[i as int].1 == tokens[i as int].1);
                    return Err(SyntaxError { offset: tokens[i].1 });
                },
            }
        }
        Ok(found)
    }
}

/// Reads one source file.
///
/// The result is the record of the file's statements, or the place of the
/// first character or statement that the syntax does not allow.
pub fn parse(code: &str) -> (r: Result<FileRoot, SyntaxError>)
    ensures
        match r {
            Ok(root) => spec_parse(code@) == Ok::<FileRootView, int>(root@),
            Err(e) => spec_parse(code@) == Err::<FileRootView, int>(e.offset as int),
        },
{
    let cst_nodes = match DbParser::parse(code) {
        Err(e) => { return Err(e); },
        Ok(nodes) => nodes,
    };
    let mut root = FileRoot {
        app_def: None,
        imports: Vec::new(),
        entity_types: Vec::new(),
        function_types: Vec::new(),
        namespace: String::new(),
        used_namespaces: Vec::new(),
    };
    assert(root.imports.deep_view() =~= Seq::empty());
    assert(root.entity_types.deep_view() =~= Seq::empty());
    assert(root.function_types.deep_view() =~= Seq::empty());
    assert(root.used_namespaces.deep_view() =~= Seq::empty());
    let ghost all = cst_nodes.deep_view();
    assert(all.take(0) =~= Seq::empty());
    for node in it: cst_nodes
        invariant
            it.seq().len() == all.len(),
            forall|j: int| 0 <= j < all.len() ==> (#[trigger] it.seq()[j])@ == all[j],
            root@ == spec_file_root(all.take(it.index() as int)),
    {
        proof {
            let k = it.index() as int;
            assert(all.take(k + 1).drop_last() =~= all.take(k));
            assert(all.take(k + 1).last() == node@);
        }
        root = record(root, node);
    }
    assert(all.take(all.len() as int) =~= all);
    Ok(root)
}

// ---------------------------------------------------------------------------
// What holds of parsing
// ---------------------------------------------------------------------------

/// A record is tidy: no two of its entities have one name, nor two of its
/// functions; no path is imported twice and no namespace used twice.
pub open spec fn tidy(root: FileRootView) -> bool {
    &&& forall|i: int, j: int|
        0 <= i < j < root.entity_types.len() ==> (#[trigger] root.entity_types[i]).name != (
        #[trigger] root.entity_types[j]).name
    &&& forall|i: int, j: int|
        0 <= i < j < root.function_types.len() ==> (#[trigger] root.function_types[i]).name != (
        #[trigger] root.function_types[j]).name
    &&& root.imports.no_duplicates()
    &&& root.used_namespaces.no_duplicates()
}

proof fn lemma_no_entity_named(entities: Seq<EntityTypeView>, name: Seq<char>, from: int)
    requires
        0 <= from,
        entity_named(entities, name, from) is None,
    ensures
        forall|j: int| from <= j < entities.len() ==> (#[trigger] entities[j]).name != name,
    decreases entities.len() - from,
{
    if from < entities.len() {
        lemma_no_entity_named(entities, name, from + 1);
    }
}

proof fn lemma_no_function_named(functions: Seq<FunctionTypeView>, name: Seq<char>, from: int)
    requires
        0 <= from,
        function_named(functions, name, from) is None,
    ensures
        forall|j: int| from <= j < functions.len() ==> (#[trigger] functions[j]).name != name,
    decreases functions.len() - from,
{
    if from < functions.len() {
        lemma_no_function_named(functions, name, from + 1);
    }
}

proof fn lemma_absorb_tidy(root: FileRootView, node: CodeNodeView)
    requires
        tidy(root),
    ensures
        tidy(absorb(root, node)),
{
    let after = absorb(root, node);
    match node {
        CodeNodeView::EntityType(e) => {
            if !has_entity(root.entity_types, e.name) {
                lemma_no_entity_named(root.entity_types, e.name, 0);
                assert forall|i: int, j: int|
                    0 <= i < j < after.entity_types.len() implies (
                #[trigger] after.entity_types[i]).name != (#[trigger] after.entity_types[j]).name by {
                    assert(after.entity_types[i] == root.entity_types[i]);
                    if j < root.entity_types.len() {
                        assert(after.entity_types[j] == root.entity_types[j]);
                    }
                }
            }
        },
        CodeNodeView::FunctionType(f) => {
            if !has_function(root.function_types, f.name) {
                lemma_no_function_named(root.function_types, f.name, 0);
                assert forall|i: int, j: int|
                    0 <= i < j < after.function_types.len() implies (
                #[trigger] after.function_types[i]).name != (
                #[trigger] after.function_types[j]).name by {
                    assert(after.function_types[i] == root.function_types[i]);
                    if j < root.function_types.len() {
                        assert(after.function_types[j] == root.function_types[j]);
                    }
                }
            }
        },
        CodeNodeView::Import(path) => {
            if !root.imports.contains(path) {
                assert forall|i: int, j: int|
                    0 <= i < after.imports.len() && 0 <= j < after.imports.len() && i
                        != j implies after.imports[i] != after.imports[j] by {
                    if i < root.imports.len() {
                        assert(after.imports[i] == root.imports[i]);
                    }
                    if j < root.imports.len() {
                        assert(after.imports[j] == root.imports[j]);
                    }
                }
            }
        },
        CodeNodeView::UsedNamespace(name) => {
            if !root.used_namespaces.contains(name) {
                assert forall|i: int, j: int|
                    0 <= i < after.used_namespaces.len() && 0 <= j < after.used_namespaces.len()
                        && i != j implies after.used_namespaces[i] != after.used_namespaces[j] by {
                    if i < root.used_namespaces.len() {
                        assert(after.used_namespaces[i] == root.used_namespaces[i]);
                    }
                    if j < root.used_namespaces.len() {
                        assert(after.used_namespaces[j] == root.used_namespaces[j]);
                    }
                }
            }
        },
        _ => {},
    }
}

/// The record of any sequence of statements is tidy: of two declarations
/// of one name, and of two imports of one path, only the first is kept. So
/// is every record that parsing yields.
pub proof fn law_records_are_tidy(nodes: Seq<CodeNodeView>)
    ensures
        tidy(spec_file_root(nodes)),
    decreases nodes.len(),
{
    if nodes.len() > 0 {
        law_records_are_tidy(nodes.drop_last());
        lemma_absorb_tidy(spec_file_root(nodes.drop_last()), nodes.last());
    }
}

proof fn lemma_spaces_have_no_tokens(s: Seq<char>, i: int, acc: Seq<(TokenView, int)>)
    requires
        0 <= i,
        forall|j: int| i <= j < s.len() ==> is_space(#[trigger] s[j]),
    ensures
        tokens_from(s, i, acc) == Ok::<Seq<(TokenView, int)>, int>(acc),
    decreases s.len() - i,
{
    if i < s.len() {
        lemma_spaces_have_no_tokens(s, i + 1, acc);
    }
}

/// A text of white space alone, and the empty text with it, is a file
/// without statements.
pub proof fn law_white_space_is_an_empty_file(code: Seq<char>)
    requires
        forall|j: int| 0 <= j < code.len() ==> is_space(#[trigger] code[j]),
    ensures
        spec_parse(code) == Ok::<FileRootView, int>(empty_root()),
{
    lemma_spaces_have_no_tokens(code, 0, Seq::empty());
}

} // verus!
