//! Staged TypeScript text builder.
//!
//! Each grammatical position (script, import, class body, signature,
//! statement, expression, argument list) is a distinct value type exposing
//! only the operations legal there. Every operation consumes the current
//! value and returns the value of the next position, so a generation
//! pipeline is a pure chain of transitions and a grammatically invalid
//! sequence is not expressible.

use vstd::prelude::*;

use crate::text::ends_open;

verus! {

/// One indentation unit ("  ") for each nesting level.
pub open spec fn indent_text(depth: nat) -> Seq<char>
    decreases depth,
{
    if depth == 0 {
        Seq::empty()
    } else {
        indent_text((depth - 1) as nat) + "  "@
    }
}

/// A line break followed by the indentation of `depth`.
pub open spec fn line_text(depth: nat) -> Seq<char> {
    seq!['\n'] + indent_text(depth)
}

/// Nesting one level deeper indents a line by exactly one more unit.
pub proof fn lemma_indent_one_deeper(depth: nat)
    ensures
        indent_text(depth + 1) == indent_text(depth) + "  "@,
        line_text(depth + 1) == line_text(depth) + "  "@,
{
    assert(line_text(depth + 1) =~= line_text(depth) + "  "@);
}

/// A scope operation: entering or leaving a nested block.
pub enum ScopeOp {
    Enter,
    Exit,
}

/// The depth reached after applying `ops` to the starting depth `d`:
/// entering a scope goes one level deeper, leaving goes one level up.
pub open spec fn depth_after(ops: Seq<ScopeOp>, d: int) -> int
    decreases ops.len(),
{
    if ops.len() == 0 {
        d
    } else {
        depth_after(
            ops.drop_first(),
            d + (if ops[0] is Enter {
                1int
            } else {
                -1int
            }),
        )
    }
}

/// A sequence of scope operations is balanced when no prefix leaves more
/// scopes than were entered and the whole sequence leaves every scope it
/// enters.
pub open spec fn balanced(ops: Seq<ScopeOp>) -> bool {
    &&& forall|i: int| 0 <= i <= ops.len() ==> depth_after(#[trigger] ops.take(i), 0) >= 0
    &&& depth_after(ops, 0) == 0
}

/// Shifting the starting depth shifts the final depth by the same amount.
proof fn lemma_depth_after_shift(ops: Seq<ScopeOp>, d: int)
    ensures
        depth_after(ops, d) == depth_after(ops, 0) + d,
    decreases ops.len(),
{
    if ops.len() == 0 {
    } else {
        let step: int = if ops[0] is Enter {
            1int
        } else {
            -1int
        };
        lemma_depth_after_shift(ops.drop_first(), d + step);
        lemma_depth_after_shift(ops.drop_first(), step);
    }
}

/// Scope pairing: a balanced sequence of scope operations returns the
/// builder to its starting depth, whatever that depth was; and by
/// `lemma_indent_one_deeper` every line of an entered scope is indented
/// exactly one unit deeper than the lines of the enclosing scope. The
/// prefix condition of `balanced` is what keeps every `Exit` above the
/// starting depth, as `Builder::pop` demands.
pub proof fn lemma_scope_pairing(ops: Seq<ScopeOp>, d: int)
    requires
        balanced(ops),
    ensures
        depth_after(ops, d) == d,
{
    lemma_depth_after_shift(ops, d);
}

/// Growable output buffer together with the current indentation depth.
pub struct Builder {
    output: String,
    level: u8,
}

impl Builder {
    /// The text accumulated so far.
    pub closed spec fn text(self) -> Seq<char> {
        self.output@
    }

    /// The current nesting depth.
    pub closed spec fn depth(self) -> nat {
        self.level as nat
    }

    pub fn new() -> (r: Self)
        ensures
            r.text() == Seq::<char>::empty(),
            r.depth() == 0,
    {
        Builder { output: String::new(), level: 0 }
    }

    /// Enters one nesting level; the text is unchanged.
    pub fn push(self) -> (r: Self)
        requires
            self.depth() < 255,
        ensures
            r.text() == self.text(),
            r.depth() == self.depth() + 1,
    {
        Builder { output: self.output, level: self.level + 1 }
    }

    /// Leaves one nesting level; leaving below the starting depth is a
    /// defect, so a positive depth is required.
    pub fn pop(self) -> (r: Self)
        requires
            self.depth() > 0,
        ensures
            r.text() == self.text(),
            r.depth() == self.depth() - 1,
    {
        Builder { output: self.output, level: self.level - 1 }
    }

    /// Appends text at the current position.
    pub fn add(self, s: &str) -> (r: Self)
        ensures
            r.text() == self.text() + s@,
            r.depth() == self.depth(),
    {
        Builder { output: self.output.concat(s), level: self.level }
    }

    /// Starts a new line indented to the current depth.
    pub fn line(self) -> (r: Self)
        ensures
            r.text() == self.text() + line_text(self.depth()),
            r.depth() == self.depth(),
    {
        let ghost start = self.output@;
        let mut out = self.output.concat("\n");
        proof {
            reveal_strlit("\n");
            assert(out@ =~= start + seq!['\n'] + indent_text(0));
        }
        let mut i: u8 = 0;
        while i < self.level
            invariant
                i <= self.level,
                out@ == start + seq!['\n'] + indent_text(i as nat),
            decreases self.level - i,
        {
            out = out.concat("  ");
            proof {
                assert(out@ =~= start + seq!['\n'] + indent_text((i + 1) as nat));
            }
            i += 1;
        }
        proof {
            assert(out@ =~= start + line_text(self.level as nat));
        }
        Builder { output: out, level: self.level }
    }
}

/// A TypeScript type expression.
///
/// An inline interface literal keeps its fields as an ordered list of
/// name/type pairs, rendered in that order.
#[derive(Debug)]
pub enum Type {
    Array(Box<Type>),
    Number,
    String,
    Boolean,
    Object,
    Any,
    Unknown,
    Never,
    Partial(Box<Type>),
    Interface(Vec<(String, Type)>),
    Record(Box<Type>, Box<Type>),
    Tuple(Vec<Type>),
    Null,
    Union(Vec<Type>),
    Class(String),
    Promise(Box<Type>),
}

/// The rendering of a type expression.
pub open spec fn type_text(t: Type) -> Seq<char>
    decreases t,
{
    match t {
        Type::Array(e) => "Array<"@ + type_text(*e) + ">"@,
        Type::Number => "number"@,
        Type::String => "string"@,
        Type::Boolean => "boolean"@,
        Type::Object => "object"@,
        Type::Any => "any"@,
        Type::Unknown => "unknown"@,
        Type::Never => "never"@,
        Type::Partial(e) => "Partial<"@ + type_text(*e) + ">"@,
        Type::Interface(fields) => "{ "@ + fields_text(fields@) + " }"@,
        Type::Record(k, v) => "Record<"@ + type_text(*k) + ", "@ + type_text(*v) + ">"@,
        Type::Tuple(fields) => "["@ + types_text(fields@, ", "@) + "]"@,
        Type::Null => "null"@,
        Type::Union(fields) => types_text(fields@, " | "@),
        Type::Class(name) => name@,
        Type::Promise(a) => "Promise<"@ + type_text(*a) + ">"@,
    }
}

/// The renderings of the types of `ts`, joined by `sep`.
pub open spec fn types_text(ts: Seq<Type>, sep: Seq<char>) -> Seq<char>
    decreases ts,
{
    if ts.len() == 0 {
        Seq::empty()
    } else if ts.len() == 1 {
        type_text(ts[0])
    } else {
        type_text(ts[0]) + sep + types_text(ts.drop_first(), sep)
    }
}

/// The rendering of one interface field, `"name": type`.
pub open spec fn field_pair_text(f: (String, Type)) -> Seq<char>
    decreases f,
{
    "\""@ + f.0@ + "\": "@ + type_text(f.1)
}

/// The renderings of the interface fields of `fs`, joined by ", ".
pub open spec fn fields_text(fs: Seq<(String, Type)>) -> Seq<char>
    decreases fs,
{
    if fs.len() == 0 {
        Seq::empty()
    } else if fs.len() == 1 {
        field_pair_text(fs[0])
    } else {
        field_pair_text(fs[0]) + ", "@ + fields_text(fs.drop_first())
    }
}

impl Type {
    pub fn to_string(self) -> (r: String)
        ensures
            r@ == type_text(self),
    {
        type_to_string(&self)
    }
}

/// Renders one type expression.
fn type_to_string(t: &Type) -> (r: String)
    ensures
        r@ == type_text(*t),
    decreases *t, 0int,
{
    match t {
        Type::Array(e) => {
            let r = "Array<".to_owned().concat(type_to_string(&**e).as_str()).concat(">");
            proof {
                assert(r@ =~= type_text(*t));
            }
            r
        },
        Type::Number => "number".to_owned(),
        Type::String => "string".to_owned(),
        Type::Boolean => "boolean".to_owned(),
        Type::Object => "object".to_owned(),
        Type::Any => "any".to_owned(),
        Type::Unknown => "unknown".to_owned(),
        Type::Never => "never".to_owned(),
        Type::Partial(e) => {
            let r = "Partial<".to_owned().concat(type_to_string(&**e).as_str()).concat(">");
            proof {
                assert(r@ =~= type_text(*t));
            }
            r
        },
        Type::Interface(fields) => {
            let r = "{ ".to_owned().concat(join_fields_from(fields, 0).as_str()).concat(" }");
            proof {
                assert(fields@.skip(0) =~= fields@);
                assert(r@ =~= type_text(*t));
            }
            r
        },
        Type::Record(k, v) => {
            let r = "Record<"
                .to_owned()
                .concat(type_to_string(&**k).as_str())
                .concat(", ")
                .concat(type_to_string(&**v).as_str())
                .concat(">");
            proof {
                assert(r@ =~= type_text(*t));
            }
            r
        },
        Type::Tuple(fields) => {
            let r = "[".to_owned().concat(join_types_from(fields, 0, ", ").as_str()).concat("]");
            proof {
                assert(fields@.skip(0) =~= fields@);
                assert(r@ =~= type_text(*t));
            }
            r
        },
        Type::Null => "null".to_owned(),
        Type::Union(fields) => {
            let r = join_types_from(fields, 0, " | ");
            proof {
                assert(fields@.skip(0) =~= fields@);
            }
            r
        },
        Type::Class(name) => name.clone(),
        Type::Promise(a) => {
            let r = "Promise<".to_owned().concat(type_to_string(&**a).as_str()).concat(">");
            proof {
                assert(r@ =~= type_text(*t));
            }
            r
        },
    }
}

/// Renders the types of `fields` from position `i` on, joined by `sep`.
fn join_types_from(fields: &Vec<Type>, i: usize, sep: &str) -> (r: String)
    requires
        i <= fields.len(),
    ensures
        r@ == types_text(fields@.skip(i as int), sep@),
    decreases fields@, (fields.len() - i) as int,
{
    if i == fields.len() {
        proof {
            assert(fields@.skip(i as int) =~= Seq::<Type>::empty());
        }
        String::new()
    } else if i + 1 == fields.len() {
        let r = type_to_string(&fields[i]);
        proof {
            assert(fields@.skip(i as int) =~= seq![fields@[i as int]]);
        }
        r
    } else {
        let head = type_to_string(&fields[i]);
        let rest = join_types_from(fields, i + 1, sep);
        let r = head.concat(sep).concat(rest.as_str());
        proof {
            let s = fields@.skip(i as int);
            assert(s[0] == fields@[i as int]);
            assert(s.drop_first() =~= fields@.skip(i as int + 1));
            assert(r@ =~= types_text(s, sep@));
        }
        r
    }
}

/// Renders the interface fields of `fs` from position `i` on, joined by ", ".
fn join_fields_from(fs: &Vec<(String, Type)>, i: usize) -> (r: String)
    requires
        i <= fs.len(),
    ensures
        r@ == fields_text(fs@.skip(i as int)),
    decreases fs@, (fs.len() - i) as int,
{
    if i == fs.len() {
        proof {
            assert(fs@.skip(i as int) =~= Seq::<(String, Type)>::empty());
        }
        String::new()
    } else {
        let pair = &fs[i];
        let head = "\""
            .to_owned()
            .concat(pair.0.as_str())
            .concat("\": ")
            .concat(type_to_string(&pair.1).as_str());
        proof {
            assert(head@ =~= field_pair_text(fs@[i as int]));
        }
        if i + 1 == fs.len() {
            proof {
                assert(fs@.skip(i as int) =~= seq![fs@[i as int]]);
            }
            head
        } else {
            let rest = join_fields_from(fs, i + 1);
            let r = head.concat(", ").concat(rest.as_str());
            proof {
                let s = fs@.skip(i as int);
                assert(s[0] == fs@[i as int]);
                assert(s.drop_first() =~= fs@.skip(i as int + 1));
                assert(r@ =~= fields_text(s));
            }
            r
        }
    }
}

/// Visibility modifier of a class member.
pub enum Visibility {
    Public,
    Protected,
    Private,
    NotSpecified,
}

/// The rendering of a visibility modifier.
pub open spec fn visibility_text(v: Visibility) -> Seq<char> {
    match v {
        Visibility::Public => "public"@,
        Visibility::Protected => "protected"@,
        Visibility::Private => "private"@,
        Visibility::NotSpecified => ""@,
    }
}

impl Visibility {
    pub fn to_string(self) -> (r: String)
        ensures
            r@ == visibility_text(self),
    {
        match self {
            Visibility::Public => "public".to_owned(),
            Visibility::Protected => "protected".to_owned(),
            Visibility::Private => "private".to_owned(),
            Visibility::NotSpecified => "".to_owned(),
        }
    }
}

/// Export modifier of a top-level declaration.
pub enum Export {
    Private,
    Named,
    Default,
}

/// The rendering of an export modifier, including its trailing space.
pub open spec fn export_text(e: Export) -> Seq<char> {
    match e {
        Export::Private => ""@,
        Export::Named => "export "@,
        Export::Default => "export default "@,
    }
}

impl Export {
    pub fn to_string(self) -> (r: String)
        ensures
            r@ == export_text(self),
    {
        match self {
            Export::Private => "".to_owned(),
            Export::Named => "export ".to_owned(),
            Export::Default => "export default ".to_owned(),
        }
    }
}

/// The kind of class-like declaration.
pub enum ClassType {
    Interface,
    Abstract,
    Normal,
}

/// The keyword of a class-like declaration.
pub open spec fn class_type_text(c: ClassType) -> Seq<char> {
    match c {
        ClassType::Interface => "interface"@,
        ClassType::Abstract => "abstract class"@,
        ClassType::Normal => "class"@,
    }
}

impl ClassType {
    pub fn to_string(self) -> (r: String)
        ensures
            r@ == class_type_text(self),
    {
        match self {
            ClassType::Interface => "interface".to_owned(),
            ClassType::Abstract => "abstract class".to_owned(),
            ClassType::Normal => "class".to_owned(),
        }
    }
}

/// Top-level script position: the start of a line at the current depth.
pub struct Script(Builder);

impl Script {
    /// The text accumulated so far.
    pub closed spec fn text(self) -> Seq<char> {
        self.0.text()
    }

    /// The current nesting depth.
    pub closed spec fn depth(self) -> nat {
        self.0.depth()
    }

    pub fn new() -> (r: Self)
        ensures
            r.text() == Seq::<char>::empty(),
            r.depth() == 0,
    {
        Script(Builder::new())
    }

    /// Opens a class-like declaration and enters its body.
    pub fn class(self, name: &str, export: Export, abstraction: ClassType) -> (r: Class)
        requires
            self.depth() < 255,
        ensures
            r.text() == self.text() + line_text(self.depth()) + export_text(export)
                + class_type_text(abstraction) + " "@ + name@ + " {"@,
            r.depth() == self.depth() + 1,
    {
        let export_str = export.to_string();
        let keyword = abstraction.to_string().concat(" ");
        let b = self
            .0
            .line()
            .add(export_str.as_str())
            .add(keyword.as_str())
            .add(name)
            .add(" {")
            .push();
        proof {
            assert(b.text() =~= self.text() + line_text(self.depth()) + export_text(export)
                + class_type_text(abstraction) + " "@ + name@ + " {"@);
        }
        Class(b)
    }

    /// Finishes the script, appending the final line break.
    pub fn collect(self) -> (r: String)
        ensures
            r@ == self.text() + seq!['\n'],
    {
        let b = self.0.add("\n");
        proof {
            reveal_strlit("\n");
            assert(b.text() =~= self.text() + seq!['\n']);
        }
        b.output
    }

    /// Starts a statement on a fresh line.
    pub fn expression(self) -> (r: Expression)
        ensures
            r.text() == self.text() + line_text(self.depth()),
            r.depth() == self.depth(),
    {
        Expression(self.0.line())
    }

    /// Closes the enclosing method body with its brace at the outer depth.
    pub fn method_end(self) -> (r: Class)
        requires
            self.depth() > 0,
        ensures
            r.text() == self.text() + line_text((self.depth() - 1) as nat) + "}"@,
            r.depth() == self.depth() - 1,
    {
        Class(self.0.pop().line().add("}"))
    }

    /// Starts an import statement on a fresh line.
    pub fn import(self) -> (r: Import)
        ensures
            r.text() == self.text() + line_text(self.depth()),
            r.depth() == self.depth(),
    {
        Import(self.0.line())
    }
}

/// Import-statement position.
pub struct Import(Builder);

impl Import {
    /// The text accumulated so far.
    pub closed spec fn text(self) -> Seq<char> {
        self.0.text()
    }

    /// The current nesting depth.
    pub closed spec fn depth(self) -> nat {
        self.0.depth()
    }

    /// Imports the default export under `name`.
    pub fn by_default(self, name: &str) -> (r: Import)
        ensures
            r.text() == self.text() + "import "@ + name@ + " from \""@,
            r.depth() == self.depth(),
    {
        let b = self.0.add("import ").add(name).add(" from \"");
        proof {
            assert(b.text() =~= self.text() + "import "@ + name@ + " from \""@);
        }
        Import(b)
    }

    /// Imports the whole module namespace under `alias`.
    pub fn by_all(self, alias: &str) -> (r: Import)
        ensures
            r.text() == self.text() + "import * as "@ + alias@ + " from \""@,
            r.depth() == self.depth(),
    {
        let b = self.0.add("import * as ").add(alias).add(" from \"");
        proof {
            assert(b.text() =~= self.text() + "import * as "@ + alias@ + " from \""@);
        }
        Import(b)
    }

    /// Names the module path imported from.
    pub fn from(self, path: &str) -> (r: Import)
        ensures
            r.text() == self.text() + path@,
            r.depth() == self.depth(),
    {
        Import(self.0.add(path))
    }

    /// Closes the import statement.
    pub fn import_end(self) -> (r: Script)
        ensures
            r.text() == self.text() + "\";"@,
            r.depth() == self.depth(),
    {
        Script(self.0.add("\";"))
    }
}

/// Expression position.
pub struct Expression(Builder);

impl Expression {
    /// The text accumulated so far.
    pub closed spec fn text(self) -> Seq<char> {
        self.0.text()
    }

    /// The current nesting depth.
    pub closed spec fn depth(self) -> nat {
        self.0.depth()
    }

    /// Appends the receiver keyword.
    pub fn this(self) -> (r: Expression)
        ensures
            r.text() == self.text() + "this"@,
            r.depth() == self.depth(),
    {
        Expression(self.0.add("this"))
    }

    /// Appends a member-access dot.
    pub fn dot(self) -> (r: Expression)
        ensures
            r.text() == self.text() + "."@,
            r.depth() == self.depth(),
    {
        Expression(self.0.add("."))
    }

    /// Appends an identifier.
    pub fn field(self, name: &str) -> (r: Expression)
        ensures
            r.text() == self.text() + name@,
            r.depth() == self.depth(),
    {
        Expression(self.0.add(name))
    }

    /// Opens a call's argument list.
    pub fn call(self) -> (r: CallExpression)
        ensures
            r.text() == self.text() + "("@,
            r.depth() == self.depth(),
    {
        CallExpression(self.0.add("("))
    }

    /// Closes the statement.
    pub fn expression_end(self) -> (r: Script)
        ensures
            r.text() == self.text() + ";"@,
            r.depth() == self.depth(),
    {
        Script(self.0.add(";"))
    }

    /// Finishes one call argument.
    pub fn param_end(self) -> (r: CallExpression)
        ensures
            r.text() == self.text(),
            r.depth() == self.depth(),
    {
        CallExpression(self.0)
    }

    /// Appends a string literal.
    pub fn string(self, value: &str) -> (r: Expression)
        ensures
            r.text() == self.text() + "\""@ + value@ + "\""@,
            r.depth() == self.depth(),
    {
        let b = self.0.add("\"").add(value).add("\"");
        proof {
            assert(b.text() =~= self.text() + "\""@ + value@ + "\""@);
        }
        Expression(b)
    }

    /// Appends a number literal in decimal.
    pub fn number(self, value: u64) -> (r: Expression)
        ensures
            r.text() == self.text() + crate::text::dec_text(value as nat),
            r.depth() == self.depth(),
    {
        let rendered = crate::text::append_dec(String::new(), value);
        Expression(self.0.add(rendered.as_str()))
    }

    /// Appends the return keyword.
    pub fn do_return(self) -> (r: Expression)
        ensures
            r.text() == self.text() + "return "@,
            r.depth() == self.depth(),
    {
        Expression(self.0.add("return "))
    }

    /// Appends the await keyword.
    pub fn do_await(self) -> (r: Expression)
        ensures
            r.text() == self.text() + "await "@,
            r.depth() == self.depth(),
    {
        Expression(self.0.add("await "))
    }
}

/// Call-argument position.
pub struct CallExpression(Builder);

impl CallExpression {
    /// The text accumulated so far.
    pub closed spec fn text(self) -> Seq<char> {
        self.0.text()
    }

    /// The current nesting depth.
    pub closed spec fn depth(self) -> nat {
        self.0.depth()
    }

    /// Starts the next argument, owing a separating comma unless the text
    /// still ends at the call's opening delimiter.
    pub fn param(self) -> (r: Expression)
        ensures
            r.text() == if ends_open(self.text()) {
                self.text()
            } else {
                self.text() + ", "@
            },
            r.depth() == self.depth(),
    {
        if crate::text::ends_with_open(self.0.output.as_str()) {
            Expression(self.0)
        } else {
            Expression(self.0.add(", "))
        }
    }

    /// Closes the argument list.
    pub fn call_end(self) -> (r: Expression)
        ensures
            r.text() == self.text() + ")"@,
            r.depth() == self.depth(),
    {
        Expression(self.0.add(")"))
    }
}

/// The texts of `names`, joined by `sep`.
pub open spec fn joined_texts(names: Seq<Seq<char>>, sep: Seq<char>) -> Seq<char>
    decreases names.len(),
{
    if names.len() == 0 {
        Seq::empty()
    } else if names.len() == 1 {
        names[0]
    } else {
        names[0] + sep + joined_texts(names.drop_first(), sep)
    }
}

/// One call argument appended to `acc`: the comma rule of
/// `CallExpression::param` followed by the argument's own text.
pub open spec fn arg_step(acc: Seq<char>, name: Seq<char>) -> Seq<char> {
    if ends_open(acc) {
        acc + name
    } else {
        acc + ", "@ + name
    }
}

/// The texts of `names` appended to `acc` as successive call arguments.
pub open spec fn args_appended(acc: Seq<char>, names: Seq<Seq<char>>) -> Seq<char>
    decreases names.len(),
{
    if names.len() == 0 {
        acc
    } else {
        args_appended(arg_step(acc, names[0]), names.drop_first())
    }
}

/// True of every argument text that is nonempty and does not itself end
/// with an opening parenthesis.
pub open spec fn plain_args(names: Seq<Seq<char>>) -> bool {
    forall|i: int|
        0 <= i < names.len() ==> (#[trigger] names[i]).len() > 0 && !ends_open(names[i])
}

/// Arguments appended to a buffer that does not end at an opening
/// delimiter each carry their separating comma.
proof fn lemma_args_after_first(acc: Seq<char>, names: Seq<Seq<char>>)
    requires
        acc.len() > 0,
        !ends_open(acc),
        plain_args(names),
    ensures
        args_appended(acc, names) == if names.len() == 0 {
            acc
        } else {
            acc + ", "@ + joined_texts(names, ", "@)
        },
    decreases names.len(),
{
    if names.len() == 0 {
    } else {
        let acc2 = acc + ", "@ + names[0];
        assert(arg_step(acc, names[0]) == acc2);
        assert(acc2[acc2.len() - 1] == names[0][names[0].len() - 1]);
        assert(!ends_open(acc2));
        let rest = names.drop_first();
        assert(plain_args(rest)) by {
            assert(forall|i: int| 0 <= i < rest.len() ==> rest[i] == names[i + 1]);
        }
        lemma_args_after_first(acc2, rest);
        if rest.len() == 0 {
            assert(joined_texts(names, ", "@) == names[0]);
        } else {
            assert(args_appended(acc, names) == acc2 + ", "@ + joined_texts(rest, ", "@));
            assert(acc2 + ", "@ + joined_texts(rest, ", "@) =~= acc + ", "@ + (names[0] + ", "@
                + joined_texts(rest, ", "@)));
            assert(joined_texts(names, ", "@) == names[0] + ", "@ + joined_texts(rest, ", "@));
            assert(acc + ", "@ + (names[0] + ", "@ + joined_texts(rest, ", "@)) =~= acc + ", "@
                + joined_texts(names, ", "@));
        }
    }
}

/// Call-argument rendering: appending N plain arguments to a call that was
/// just opened renders them in append order, joined by ", " — exactly
/// max(N - 1, 0) separating commas, none before the first argument.
pub proof fn lemma_call_args_joined(acc: Seq<char>, names: Seq<Seq<char>>)
    requires
        ends_open(acc),
        plain_args(names),
    ensures
        args_appended(acc, names) == acc + joined_texts(names, ", "@),
    decreases names.len(),
{
    if names.len() == 0 {
        assert(acc + joined_texts(names, ", "@) =~= acc);
    } else {
        let acc2 = acc + names[0];
        assert(arg_step(acc, names[0]) == acc2);
        assert(acc2[acc2.len() - 1] == names[0][names[0].len() - 1]);
        assert(!ends_open(acc2));
        let rest = names.drop_first();
        assert(plain_args(rest)) by {
            assert(forall|i: int| 0 <= i < rest.len() ==> rest[i] == names[i + 1]);
        }
        lemma_args_after_first(acc2, rest);
        if rest.len() == 0 {
            assert(joined_texts(names, ", "@) == names[0]);
        } else {
            assert(args_appended(acc, names) == acc2 + ", "@ + joined_texts(rest, ", "@));
            assert(acc2 + ", "@ + joined_texts(rest, ", "@) =~= acc + (names[0] + ", "@
                + joined_texts(rest, ", "@)));
            assert(joined_texts(names, ", "@) == names[0] + ", "@ + joined_texts(rest, ", "@));
        }
    }
}

/// Class-body position.
pub struct Class(Builder);

impl Class {
    /// The text accumulated so far.
    pub closed spec fn text(self) -> Seq<char> {
        self.0.text()
    }

    /// The current nesting depth.
    pub closed spec fn depth(self) -> nat {
        self.0.depth()
    }

    /// Closes the class with its brace at the outer depth.
    pub fn class_end(self) -> (r: Script)
        requires
            self.depth() > 0,
        ensures
            r.text() == self.text() + line_text((self.depth() - 1) as nat) + "}"@,
            r.depth() == self.depth() - 1,
    {
        Script(self.0.pop().line().add("}"))
    }

    /// Opens the constructor's parameter list.
    pub fn constructor(self) -> (r: Method)
        ensures
            r.text() == self.text() + line_text(self.depth()) + "constructor("@,
            r.depth() == self.depth(),
    {
        Method(self.0.line().add("constructor("))
    }

    /// Opens a named method's parameter list.
    pub fn method(self, name: &str, is_async: bool, visibility: Visibility) -> (r: Method)
        ensures
            r.text() == self.text() + line_text(self.depth()) + visibility_text(visibility)
                + " "@ + (if is_async {
                "async "@
            } else {
                ""@
            }) + name@ + "("@,
            r.depth() == self.depth(),
    {
        let vis = visibility.to_string();
        let b = if is_async {
            self.0.line().add(vis.as_str()).add(" ").add("async ").add(name).add("(")
        } else {
            self.0.line().add(vis.as_str()).add(" ").add("").add(name).add("(")
        };
        proof {
            assert(b.text() =~= self.text() + line_text(self.depth()) + visibility_text(
                visibility,
            ) + " "@ + (if is_async {
                "async "@
            } else {
                ""@
            }) + name@ + "("@);
        }
        Method(b)
    }
}

/// Signature position of a constructor or method.
pub struct Method(Builder);

impl Method {
    /// The text accumulated so far.
    pub closed spec fn text(self) -> Seq<char> {
        self.0.text()
    }

    /// The current nesting depth.
    pub closed spec fn depth(self) -> nat {
        self.0.depth()
    }

    /// Appends a plain parameter `name: Type`, owing a separating comma
    /// unless the text still ends at the opening delimiter.
    pub fn param(self, name: &str, kind: Type) -> (r: Self)
        ensures
            r.text() == if ends_open(self.text()) {
                self.text() + name@ + ": "@ + type_text(kind)
            } else {
                self.text() + ", "@ + name@ + ": "@ + type_text(kind)
            },
            r.depth() == self.depth(),
    {
        let ghost kind_spec = kind;
        let kind_str = kind.to_string();
        let b = if crate::text::ends_with_open(self.0.output.as_str()) {
            self.0.add(name).add(": ").add(kind_str.as_str())
        } else {
            self.0.add(", ").add(name).add(": ").add(kind_str.as_str())
        };
        proof {
            if ends_open(self.text()) {
                assert(b.text() =~= self.text() + name@ + ": "@ + type_text(kind_spec));
            } else {
                assert(b.text() =~= self.text() + ", "@ + name@ + ": "@ + type_text(kind_spec));
            }
        }
        Method(b)
    }

    /// Appends a rest parameter `...name: Type`.
    pub fn rest_param(self, name: &str, kind: Type) -> (r: Self)
        ensures
            r.text() == if ends_open(self.text()) {
                self.text() + "..."@ + name@ + ": "@ + type_text(kind)
            } else {
                self.text() + ", ..."@ + name@ + ": "@ + type_text(kind)
            },
            r.depth() == self.depth(),
    {
        let ghost kind_spec = kind;
        let kind_str = kind.to_string();
        let b = if crate::text::ends_with_open(self.0.output.as_str()) {
            self.0.add("...").add(name).add(": ").add(kind_str.as_str())
        } else {
            self.0.add(", ...").add(name).add(": ").add(kind_str.as_str())
        };
        proof {
            if ends_open(self.text()) {
                assert(b.text() =~= self.text() + "..."@ + name@ + ": "@ + type_text(kind_spec));
            } else {
                assert(b.text() =~= self.text() + ", ..."@ + name@ + ": "@ + type_text(
                    kind_spec,
                ));
            }
        }
        Method(b)
    }

    /// Appends a constructor-promoted field parameter with its visibility
    /// and optional readonly flag.
    pub fn field(self, name: &str, kind: Type, readonly: bool, visibility: Visibility) -> (r: Self)
        ensures
            r.text() == (if ends_open(self.text()) {
                self.text()
            } else {
                self.text() + ", "@
            }) + visibility_text(visibility) + " "@ + (if readonly {
                "readonly "@
            } else {
                ""@
            }) + name@ + ": "@ + type_text(kind),
            r.depth() == self.depth(),
    {
        let ghost kind_spec = kind;
        let vis = visibility.to_string();
        let kind_str = kind.to_string();
        let open = crate::text::ends_with_open(self.0.output.as_str());
        let b0 = if open {
            self.0
        } else {
            self.0.add(", ")
        };
        let b1 = b0.add(vis.as_str()).add(" ");
        let b2 = if readonly {
            b1.add("readonly ")
        } else {
            b1
        };
        let b = b2.add(name).add(": ").add(kind_str.as_str());
        proof {
            reveal_strlit("");
            assert(""@ =~= Seq::<char>::empty());
            assert(b.text() =~= (if ends_open(self.text()) {
                self.text()
            } else {
                self.text() + ", "@
            }) + visibility_text(visibility) + " "@ + (if readonly {
                "readonly "@
            } else {
                ""@
            }) + name@ + ": "@ + type_text(kind_spec));
        }
        Method(b)
    }

    /// Closes the signature with an empty body.
    pub fn method_end(self) -> (r: Class)
        ensures
            r.text() == self.text() + ") {}"@,
            r.depth() == self.depth(),
    {
        Class(self.0.add(") {}"))
    }

    /// Closes the signature of a bodiless declaration with its return type.
    pub fn method_end_abstract(self, return_type: Type) -> (r: Class)
        ensures
            r.text() == self.text() + "): "@ + type_text(return_type) + ";"@,
            r.depth() == self.depth(),
    {
        let ghost rt = return_type;
        let rt_str = return_type.to_string();
        let b = self.0.add("): ").add(rt_str.as_str()).add(";");
        proof {
            assert(b.text() =~= self.text() + "): "@ + type_text(rt) + ";"@);
        }
        Class(b)
    }

    /// Closes the constructor's signature with an empty body.
    pub fn constructor_end(self) -> (r: Class)
        ensures
            r.text() == self.text() + ") {}"@,
            r.depth() == self.depth(),
    {
        self.method_end()
    }

    /// Closes the signature and enters the method's body.
    pub fn body(self) -> (r: Script)
        requires
            self.depth() < 255,
        ensures
            r.text() == self.text() + ") {"@,
            r.depth() == self.depth() + 1,
    {
        Script(self.0.add(") {").push())
    }
}

} // verus!
