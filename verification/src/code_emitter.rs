//! Walks a contract's ABI and drives the builder to emit wrapper code.

use vstd::prelude::*;

use crate::parser::{AbiEntry, Contract, DataType, FuncIO};
use crate::text::{dec_text, ends_open};
use crate::ts;
use crate::ts::{line_text, type_text};

verus! {

/// Error for an ABI type without a direct output-type representation;
/// carries the offending type. It is never coerced to a fallback type:
/// emission of the enclosing contract fails instead.
#[derive(Debug)]
pub struct UnsupportedType(pub DataType);

/// Whether an ABI type has a direct output-type representation.
pub open spec fn translatable(d: DataType) -> bool {
    match d {
        DataType::Contract(_) => false,
        DataType::Enum(_) => false,
        DataType::Other(_) => false,
        _ => true,
    }
}

/// The rendering of the translation of a directly translatable type.
pub open spec fn translated_text(d: DataType) -> Seq<char> {
    match d {
        DataType::UInt256 => "number"@,
        DataType::UInt8 => "number"@,
        DataType::UInt8Array => "Array<number>"@,
        DataType::UInt256Array => "Array<number>"@,
        DataType::String => "string"@,
        DataType::Address => "string"@,
        DataType::Bool => "boolean"@,
        DataType::Contract(_) => Seq::empty(),
        DataType::Enum(_) => Seq::empty(),
        DataType::Other(_) => Seq::empty(),
    }
}

/// The translation relation: numeric for the unsigned integers,
/// array-of-numeric for their array forms, string for `String` and
/// `Address`, boolean for `Bool`; failure carrying the original type for
/// `Contract`, `Enum` and `Other`.
pub open spec fn translated(d: DataType, r: Result<ts::Type, UnsupportedType>) -> bool {
    match d {
        DataType::UInt256 => r == Result::<ts::Type, UnsupportedType>::Ok(ts::Type::Number),
        DataType::UInt8 => r == Result::<ts::Type, UnsupportedType>::Ok(ts::Type::Number),
        DataType::UInt8Array => r matches Ok(t) && t matches ts::Type::Array(e) && *e
            == ts::Type::Number,
        DataType::UInt256Array => r matches Ok(t) && t matches ts::Type::Array(e) && *e
            == ts::Type::Number,
        DataType::String => r == Result::<ts::Type, UnsupportedType>::Ok(ts::Type::String),
        DataType::Address => r == Result::<ts::Type, UnsupportedType>::Ok(ts::Type::String),
        DataType::Bool => r == Result::<ts::Type, UnsupportedType>::Ok(ts::Type::Boolean),
        DataType::Contract(_) => r matches Err(u) && u.0 == d,
        DataType::Enum(_) => r matches Err(u) && u.0 == d,
        DataType::Other(_) => r matches Err(u) && u.0 == d,
    }
}

/// Maps an ABI type to its output-language type. The mapping is partial
/// and never guesses a representation for structured, enumerated or
/// unrecognized types: those fail with the original type.
pub fn translate_type(io_type: DataType) -> (r: Result<ts::Type, UnsupportedType>)
    ensures
        translated(io_type, r),
        r is Ok <==> translatable(io_type),
        r matches Ok(t) ==> type_text(t) == translated_text(io_type),
{
    proof {
        reveal_strlit("Array<");
        reveal_strlit("number");
        reveal_strlit(">");
        reveal_strlit("Array<number>");
        assert(type_text(ts::Type::Number) == "number"@);
        assert("Array<"@ + "number"@ + ">"@ =~= "Array<number>"@);
    }
    match io_type {
        DataType::UInt256 => Result::Ok(ts::Type::Number),
        DataType::UInt8 => Result::Ok(ts::Type::Number),
        DataType::UInt8Array => Result::Ok(ts::Type::Array(Box::new(ts::Type::Number))),
        DataType::UInt256Array => Result::Ok(ts::Type::Array(Box::new(ts::Type::Number))),
        DataType::String => Result::Ok(ts::Type::String),
        DataType::Address => Result::Ok(ts::Type::String),
        DataType::Bool => Result::Ok(ts::Type::Boolean),
        DataType::Contract(_) => Result::Err(UnsupportedType(io_type)),
        DataType::Enum(_) => Result::Err(UnsupportedType(io_type)),
        DataType::Other(_) => Result::Err(UnsupportedType(io_type)),
    }
}

/// The synthesized name of the `k`-th anonymous input, zero-based among
/// the anonymous inputs only.
pub open spec fn anon_name(k: nat) -> Seq<char> {
    "_param"@ + dec_text(k)
}

/// The parameter name used for `io` when `k` anonymous inputs came before
/// it: its own name, or a synthesized positional name when empty. The
/// same name is used in the signature and in the forwarded arguments.
pub open spec fn io_name(io: FuncIO, k: nat) -> Seq<char> {
    if io.name@.len() == 0 {
        anon_name(k)
    } else {
        io.name@
    }
}

/// One signature parameter appended to `acc`: a separating comma is owed
/// unless the text still ends at the opening delimiter.
pub open spec fn appended_param(acc: Seq<char>, name: Seq<char>, ty: Seq<char>) -> Seq<char> {
    if ends_open(acc) {
        acc + name + ": "@ + ty
    } else {
        acc + ", "@ + name + ": "@ + ty
    }
}

/// The signature parameter list of `inputs` appended to `acc`, `k`
/// anonymous inputs having already been named.
pub open spec fn appended_params(acc: Seq<char>, inputs: Seq<FuncIO>, k: nat) -> Seq<char>
    decreases inputs.len(),
{
    if inputs.len() == 0 {
        acc
    } else {
        appended_params(
            appended_param(acc, io_name(inputs[0], k), translated_text(inputs[0].io_type)),
            inputs.drop_first(),
            k + (if inputs[0].name@.len() == 0 {
                1nat
            } else {
                0nat
            }),
        )
    }
}

/// The forwarded call arguments of `inputs` appended to `acc` under the
/// comma rule of `ts::arg_step`, `k` anonymous inputs having already been
/// named.
pub open spec fn appended_args(acc: Seq<char>, inputs: Seq<FuncIO>, k: nat) -> Seq<char>
    decreases inputs.len(),
{
    if inputs.len() == 0 {
        acc
    } else {
        appended_args(
            ts::arg_step(acc, io_name(inputs[0], k)),
            inputs.drop_first(),
            k + (if inputs[0].name@.len() == 0 {
                1nat
            } else {
                0nat
            }),
        )
    }
}

/// The method emitted for one ABI function entry: a public async method
/// under the function's name, its typed parameter list, and a body that
/// awaits the capability's `call` with the function name and the
/// parameters forwarded in order.
pub open spec fn method_text(name: Seq<char>, inputs: Seq<FuncIO>) -> Seq<char> {
    let header = line_text(1) + "public async "@ + name + "("@;
    let with_call = appended_params(header, inputs, 0) + ") {"@ + line_text(2)
        + "return await this.contract.call(\""@ + name + "\""@;
    appended_args(with_call, inputs, 0) + ");"@ + line_text(1) + "}"@
}

/// The methods of all function entries in order, appended to `acc`;
/// constructor and event entries produce no output under current policy.
pub open spec fn appended_methods(acc: Seq<char>, entries: Seq<AbiEntry>) -> Seq<char>
    decreases entries.len(),
{
    if entries.len() == 0 {
        acc
    } else {
        appended_methods(
            match entries[0] {
                AbiEntry::Function { name, inputs, .. } => acc + method_text(name@, inputs@),
                _ => acc,
            },
            entries.drop_first(),
        )
    }
}

/// The first type without a translation among `ios`, if any.
pub open spec fn first_unsupported_io(ios: Seq<FuncIO>) -> Option<DataType>
    decreases ios.len(),
{
    if ios.len() == 0 {
        None
    } else if !translatable(ios[0].io_type) {
        Some(ios[0].io_type)
    } else {
        first_unsupported_io(ios.drop_first())
    }
}

/// The first type without a translation among each function entry's
/// inputs and then its outputs, in entry order, if any.
pub open spec fn first_unsupported(entries: Seq<AbiEntry>) -> Option<DataType>
    decreases entries.len(),
{
    if entries.len() == 0 {
        None
    } else {
        let head = match entries[0] {
            AbiEntry::Function { inputs, outputs, .. } => if first_unsupported_io(inputs@)
                is Some {
                first_unsupported_io(inputs@)
            } else {
                first_unsupported_io(outputs@)
            },
            _ => None,
        };
        if head is Some {
            head
        } else {
            first_unsupported(entries.drop_first())
        }
    }
}

/// The fixed class header: the capability import, the default-exported
/// class line, and the constructor promoting the capability to a private
/// readonly field.
pub open spec fn header_text(name: Seq<char>) -> Seq<char> {
    line_text(0) + "import AbstractContract from \"./AbstractContract\";"@ + line_text(0)
        + "export default class "@ + name + " {"@ + line_text(1)
        + "constructor(private readonly contract: AbstractContract) {}"@
}

/// The whole wrapper-class text for a contract all of whose function
/// inputs and outputs are translatable. Outputs take no part in the
/// rendering; they only decide whether emission succeeds.
pub open spec fn contract_text(c: Contract) -> Seq<char> {
    appended_methods(header_text(c.name@), c.abi@) + line_text(0) + "}"@ + seq!['\n']
}

/// The text of the shared capability-interface declaration: one abstract
/// `call` operation taking the target name and any further arguments.
pub open spec fn abstraction_text() -> Seq<char> {
    line_text(0) + "export default interface AbstractContract {"@ + line_text(1)
        + " call(target: string, ...args: Array<unknown>): Promise<unknown>;"@ + line_text(0) + "}"@
        + seq!['\n']
}

/// The builder emits fixed texts in small fragments; this groups them.
proof fn lemma_fragments()
    ensures
        "import "@ + "AbstractContract"@ + " from \""@ + "./AbstractContract"@ + "\";"@
            == "import AbstractContract from \"./AbstractContract\";"@,
        "export default "@ + "class"@ + " "@ == "export default class "@,
        "constructor("@ + "private"@ + " "@ + "readonly "@ + "contract"@ + ": "@
            + "AbstractContract"@ + ") {}"@
            == "constructor(private readonly contract: AbstractContract) {}"@,
        "public"@ + " "@ + "async "@ == "public async "@,
        "return "@ + "await "@ + "this"@ + "."@ + "contract"@ + "."@ + "call"@ + "("@ + "\""@
            == "return await this.contract.call(\""@,
        ")"@ + ";"@ == ");"@,
{
    reveal_strlit("import ");
    reveal_strlit("AbstractContract");
    reveal_strlit(" from \"");
    reveal_strlit("./AbstractContract");
    reveal_strlit("\";");
    reveal_strlit("import AbstractContract from \"./AbstractContract\";");
    reveal_strlit("export default ");
    reveal_strlit("class");
    reveal_strlit(" ");
    reveal_strlit("export default class ");
    reveal_strlit("constructor(");
    reveal_strlit("private");
    reveal_strlit("readonly ");
    reveal_strlit("contract");
    reveal_strlit(": ");
    reveal_strlit(") {}");
    reveal_strlit("constructor(private readonly contract: AbstractContract) {}");
    reveal_strlit("public");
    reveal_strlit("async ");
    reveal_strlit("public async ");
    reveal_strlit("return ");
    reveal_strlit("await ");
    reveal_strlit("this");
    reveal_strlit(".");
    reveal_strlit("call");
    reveal_strlit("(");
    reveal_strlit("\"");
    reveal_strlit("return await this.contract.call(\"");
    reveal_strlit(")");
    reveal_strlit(";");
    reveal_strlit(");");
    assert(")"@ + ";"@ =~= ");"@);
    assert("import "@ + "AbstractContract"@ + " from \""@ + "./AbstractContract"@ + "\";"@
        =~= "import AbstractContract from \"./AbstractContract\";"@);
    assert("export default "@ + "class"@ + " "@ =~= "export default class "@);
    assert("constructor("@ + "private"@ + " "@ + "readonly "@ + "contract"@ + ": "@
        + "AbstractContract"@ + ") {}"@
        =~= "constructor(private readonly contract: AbstractContract) {}"@);
    assert("public"@ + " "@ + "async "@ =~= "public async "@);
    assert("return "@ + "await "@ + "this"@ + "."@ + "contract"@ + "."@ + "call"@ + "("@ + "\""@
        =~= "return await this.contract.call(\""@);
}

/// Appending a parameter list is local: a common prefix before a nonempty
/// buffer distributes out of the rendering.
proof fn lemma_params_prefix(p: Seq<char>, a: Seq<char>, inputs: Seq<FuncIO>, k: nat)
    requires
        a.len() > 0,
    ensures
        appended_params(p + a, inputs, k) == p + appended_params(a, inputs, k),
    decreases inputs.len(),
{
    if inputs.len() == 0 {
    } else {
        let nm = io_name(inputs[0], k);
        let tt = translated_text(inputs[0].io_type);
        assert((p + a)[(p + a).len() - 1] == a[a.len() - 1]);
        assert(ends_open(p + a) == ends_open(a));
        assert(appended_param(p + a, nm, tt) =~= p + appended_param(a, nm, tt));
        lemma_params_prefix(
            p,
            appended_param(a, nm, tt),
            inputs.drop_first(),
            k + (if inputs[0].name@.len() == 0 {
                1nat
            } else {
                0nat
            }),
        );
    }
}

/// Appending a call-argument list is local in the same way.
proof fn lemma_args_prefix(p: Seq<char>, a: Seq<char>, inputs: Seq<FuncIO>, k: nat)
    requires
        a.len() > 0,
    ensures
        appended_args(p + a, inputs, k) == p + appended_args(a, inputs, k),
    decreases inputs.len(),
{
    if inputs.len() == 0 {
    } else {
        let nm = io_name(inputs[0], k);
        assert((p + a)[(p + a).len() - 1] == a[a.len() - 1]);
        assert(ends_open(p + a) == ends_open(a));
        assert(ts::arg_step(p + a, nm) =~= p + ts::arg_step(a, nm));
        assert(ts::arg_step(a, nm).len() > 0);
        lemma_args_prefix(
            p,
            ts::arg_step(a, nm),
            inputs.drop_first(),
            k + (if inputs[0].name@.len() == 0 {
                1nat
            } else {
                0nat
            }),
        );
    }
}

/// Repeated renderings of the capability-interface declaration are
/// byte-identical: the text is a function of nothing.
pub proof fn lemma_abstraction_idempotent(a: Seq<char>, b: Seq<char>)
    requires
        a == abstraction_text(),
        b == abstraction_text(),
    ensures
        a == b,
{
}

/// The code emitter takes the ABI data and generates code from the
/// information it provides.
pub struct CodeEmitter;

impl CodeEmitter {
    /// Emits the shared capability-interface declaration. Its output is a
    /// function of nothing, so repeated invocations yield identical text.
    pub fn emit_contract_abstraction(self) -> (r: String)
        ensures
            r@ == abstraction_text(),
    {
        let s0 = ts::Script::new();
        let c1 = s0.class("AbstractContract", ts::Export::Default, ts::ClassType::Interface);
        let m1 = c1.method("call", false, ts::Visibility::NotSpecified);
        let m2 = m1.param("target", ts::Type::String);
        let m3 = m2.rest_param("args", ts::Type::Array(Box::new(ts::Type::Unknown)));
        let c2 = m3.method_end_abstract(ts::Type::Promise(Box::new(ts::Type::Unknown)));
        let s1 = c2.class_end();
        let r = s1.collect();
        proof {
            reveal_strlit("export default ");
            reveal_strlit("interface");
            reveal_strlit(" ");
            reveal_strlit("AbstractContract");
            reveal_strlit(" {");
            reveal_strlit("");
            reveal_strlit("call");
            reveal_strlit("(");
            reveal_strlit("target");
            reveal_strlit(": ");
            reveal_strlit("string");
            reveal_strlit("...");
            reveal_strlit(", ...");
            reveal_strlit("args");
            reveal_strlit("Array<");
            reveal_strlit(">");
            reveal_strlit("): ");
            reveal_strlit("Promise<");
            reveal_strlit("unknown");
            reveal_strlit(";");
            reveal_strlit("}");
            reveal_strlit("export default interface AbstractContract {");
            reveal_strlit(" call(target: string, ...args: Array<unknown>): Promise<unknown>;");
            assert(type_text(ts::Type::Unknown) == "unknown"@);
            assert(type_text(ts::Type::String) == "string"@);
            assert(r@ =~= abstraction_text());
        }
        r
    }

    /// Emits the whole wrapper-class code for `contract`: the capability
    /// import, a default-exported class named after the contract, a
    /// constructor promoting the capability to a private readonly field,
    /// and one forwarding method per function entry in ABI order. The
    /// first input or output type without a translation, in entry order
    /// with a function's inputs before its outputs, aborts the emission
    /// with that error, and no partial text is returned; outputs are
    /// checked but never rendered.
    #[verifier::loop_isolation(false)]
    #[verifier::rlimit(80)]
    pub fn emit(self, contract: &Contract) -> (r: Result<String, UnsupportedType>)
        ensures
            r is Ok <==> first_unsupported(contract.abi@) is None,
            r matches Ok(s) ==> s@ == contract_text(*contract),
            r matches Err(e) ==> first_unsupported(contract.abi@) == Some(e.0),
    {
        let s0 = ts::Script::new()
            .import()
            .by_default("AbstractContract")
            .from("./AbstractContract")
            .import_end();
        let c0 = s0.class(contract.name.as_str(), ts::Export::Default, ts::ClassType::Normal);
        let m0 = c0.constructor();
        let m1 = m0.field(
            "contract",
            ts::Type::Class("AbstractContract".to_owned()),
            true,
            ts::Visibility::Private,
        );
        let mut cls = m1.constructor_end();
        proof {
            lemma_fragments();
            reveal_strlit("constructor(");
            assert(cls.text() =~= header_text(contract.name@));
        }
        let ghost entries = contract.abi@;
        proof {
            assert(entries.skip(0) =~= entries);
        }
        let n = contract.abi.len();
        let mut i: usize = 0;
        while i < n
            invariant
                i <= n,
                n == entries.len(),
                entries == contract.abi@,
                cls.depth() == 1,
                appended_methods(cls.text(), entries.skip(i as int)) == appended_methods(
                    header_text(contract.name@),
                    entries,
                ),
                first_unsupported(entries.skip(i as int)) == first_unsupported(entries),
            decreases n - i,
        {
            let ghost rest = entries.skip(i as int);
            proof {
                assert(rest[0] == entries[i as int]);
                assert(rest.drop_first() =~= entries.skip(i as int + 1));
            }
            match &contract.abi[i] {
                AbiEntry::Function { name, mutability: _, constant: _, inputs, outputs } => {
                    let ghost cls_text = cls.text();
                    let mm = cls.method(name.as_str(), true, ts::Visibility::Public);
                    let ghost local_header = line_text(1) + "public async "@ + name@ + "("@;
                    proof {
                        lemma_fragments();
                        assert(mm.text() =~= cls_text + local_header);
                    }
                    let ghost m0text = mm.text();
                    proof {
                        assert(inputs@.skip(0) =~= inputs@);
                    }
                    let mut m = mm;
                    let in_n = inputs.len();
                    let mut j: usize = 0;
                    let mut k: usize = 0;
                    while j < in_n
                        invariant
                            j <= in_n,
                            k <= j,
                            in_n == inputs@.len(),
                            m.depth() == 1,
                            appended_params(m.text(), inputs@.skip(j as int), k as nat)
                                == appended_params(m0text, inputs@, 0),
                            first_unsupported_io(inputs@.skip(j as int)) == first_unsupported_io(
                                inputs@,
                            ),
                        decreases in_n - j,
                    {
                        let io = &inputs[j];
                        let ghost k0 = k as nat;
                        let ghost in_rest = inputs@.skip(j as int);
                        proof {
                            assert(in_rest[0] == inputs@[j as int]);
                            assert(in_rest.drop_first() =~= inputs@.skip(j as int + 1));
                        }
                        let t = match translate_type(io.io_type.clone()) {
                            Result::Ok(t) => t,
                            Result::Err(e) => {
                                proof {
                                    assert(first_unsupported_io(in_rest) == Some(
                                        inputs@[j as int].io_type,
                                    ));
                                    assert(first_unsupported_io(inputs@) == Some(e.0));
                                    assert(first_unsupported(rest) == Some(e.0));
                                    assert(first_unsupported(entries) == Some(e.0));
                                }
                                return Result::Err(e);
                            },
                        };
                        let anon = io.name.as_str().is_empty();
                        let pname: String = if anon {
                            crate::text::append_dec("_param".to_owned(), k as u64)
                        } else {
                            io.name.clone()
                        };
                        proof {
                            assert(pname@ == io_name(inputs@[j as int], k0));
                        }
                        m = m.param(pname.as_str(), t);
                        if anon {
                            k = k + 1;
                        }
                        j = j + 1;
                    }
                    proof {
                        assert(inputs@.skip(in_n as int) =~= Seq::<FuncIO>::empty());
                        assert(outputs@.skip(0) =~= outputs@);
                    }
                    let out_n = outputs.len();
                    let mut jo: usize = 0;
                    while jo < out_n
                        invariant
                            jo <= out_n,
                            out_n == outputs@.len(),
                            first_unsupported_io(outputs@.skip(jo as int)) == first_unsupported_io(
                                outputs@,
                            ),
                        decreases out_n - jo,
                    {
                        let oio = &outputs[jo];
                        let ghost out_rest = outputs@.skip(jo as int);
                        proof {
                            assert(out_rest[0] == outputs@[jo as int]);
                            assert(out_rest.drop_first() =~= outputs@.skip(jo as int + 1));
                        }
                        match translate_type(oio.io_type.clone()) {
                            Result::Ok(_) => {},
                            Result::Err(e) => {
                                proof {
                                    assert(first_unsupported_io(out_rest) == Some(
                                        outputs@[jo as int].io_type,
                                    ));
                                    assert(first_unsupported_io(outputs@) == Some(e.0));
                                    assert(first_unsupported(rest) == Some(e.0));
                                    assert(first_unsupported(entries) == Some(e.0));
                                }
                                return Result::Err(e);
                            },
                        }
                        jo = jo + 1;
                    }
                    proof {
                        assert(outputs@.skip(out_n as int) =~= Seq::<FuncIO>::empty());
                    }
                    let ex = m
                        .body()
                        .expression()
                        .do_return()
                        .do_await()
                        .field("this")
                        .dot()
                        .field("contract")
                        .dot()
                        .field("call")
                        .call();
                    let ca = ex.param().string(name.as_str()).param_end();
                    let ghost local_call = appended_params(local_header, inputs@, 0) + ") {"@
                        + line_text(2) + "return await this.contract.call(\""@ + name@ + "\""@;
                    proof {
                        lemma_fragments();
                        reveal_strlit("(");
                        lemma_params_prefix(cls_text, local_header, inputs@, 0);
                        assert(ends_open(ex.text()));
                        assert(ca.text() =~= cls_text + local_call);
                    }
                    let ghost c0text = ca.text();
                    proof {
                        assert(inputs@.skip(0) =~= inputs@);
                    }
                    let mut c = ca;
                    let mut j2: usize = 0;
                    let mut k2: usize = 0;
                    while j2 < in_n
                        invariant
                            j2 <= in_n,
                            k2 <= j2,
                            in_n == inputs@.len(),
                            c.depth() == 2,
                            appended_args(c.text(), inputs@.skip(j2 as int), k2 as nat)
                                == appended_args(c0text, inputs@, 0),
                        decreases in_n - j2,
                    {
                        let io = &inputs[j2];
                        let ghost k0 = k2 as nat;
                        let ghost in_rest = inputs@.skip(j2 as int);
                        proof {
                            assert(in_rest[0] == inputs@[j2 as int]);
                            assert(in_rest.drop_first() =~= inputs@.skip(j2 as int + 1));
                        }
                        let anon = io.name.as_str().is_empty();
                        let pname: String = if anon {
                            crate::text::append_dec("_param".to_owned(), k2 as u64)
                        } else {
                            io.name.clone()
                        };
                        proof {
                            assert(pname@ == io_name(inputs@[j2 as int], k0));
                        }
                        c = c.param().field(pname.as_str()).param_end();
                        if anon {
                            k2 = k2 + 1;
                        }
                        j2 = j2 + 1;
                    }
                    proof {
                        assert(inputs@.skip(in_n as int) =~= Seq::<FuncIO>::empty());
                    }
                    let done = c.call_end().expression_end().method_end();
                    proof {
                        lemma_args_prefix(cls_text, local_call, inputs@, 0);
                        assert(done.text() =~= cls_text + method_text(name@, inputs@));
                        assert(appended_methods(cls_text, rest) == appended_methods(
                            cls_text + method_text(name@, inputs@),
                            rest.drop_first(),
                        ));
                        assert(first_unsupported_io(inputs@) is None);
                        assert(first_unsupported_io(outputs@) is None);
                        assert(first_unsupported(rest) == first_unsupported(rest.drop_first()));
                    }
                    cls = done;
                },
                _ => {
                    proof {
                        assert(appended_methods(cls.text(), rest) == appended_methods(
                            cls.text(),
                            rest.drop_first(),
                        ));
                        assert(first_unsupported(rest) == first_unsupported(rest.drop_first()));
                    }
                },
            }
            i = i + 1;
        }
        proof {
            assert(entries.skip(n as int) =~= Seq::<AbiEntry>::empty());
        }
        let s_end = cls.class_end();
        let out = s_end.collect();
        proof {
            assert(out@ =~= contract_text(*contract));
        }
        Result::Ok(out)
    }
}

} // verus!
