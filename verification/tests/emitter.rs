use abigen::code_emitter::{translate_type, CodeEmitter};
use abigen::parser::{AbiEntry, Contract, CtorInput, DataType, EventInput, FuncIO, StateMutability};
use abigen::ts;

fn io(name: &str, raw: &str) -> FuncIO {
    FuncIO {
        name: name.to_string(),
        io_type: DataType::decode(raw),
        internal_type: DataType::decode(raw),
    }
}

#[test]
fn decode_known_keywords() {
    assert!(matches!(DataType::decode("uint256"), DataType::UInt256));
    assert!(matches!(DataType::decode("uint8"), DataType::UInt8));
    assert!(matches!(DataType::decode("address"), DataType::Address));
    assert!(matches!(DataType::decode("string"), DataType::String));
    assert!(matches!(DataType::decode("bool"), DataType::Bool));
    assert!(matches!(DataType::decode("uint8[]"), DataType::UInt8Array));
    assert!(matches!(DataType::decode("uint256[]"), DataType::UInt256Array));
}

#[test]
fn decode_prefixed_names() {
    match DataType::decode("contract ERC20") {
        DataType::Contract(name) => assert_eq!(name, "ERC20"),
        other => panic!("expected a contract reference, got {:?}", other),
    }
    match DataType::decode("enum Color") {
        DataType::Enum(name) => assert_eq!(name, "Color"),
        other => panic!("expected an enum reference, got {:?}", other),
    }
}

#[test]
fn decode_anything_else_verbatim() {
    match DataType::decode("tuple") {
        DataType::Other(raw) => assert_eq!(raw, "tuple"),
        other => panic!("expected a verbatim type, got {:?}", other),
    }
    match DataType::decode("") {
        DataType::Other(raw) => assert_eq!(raw, ""),
        other => panic!("expected a verbatim type, got {:?}", other),
    }
    match DataType::decode("contractX") {
        DataType::Other(raw) => assert_eq!(raw, "contractX"),
        other => panic!("expected a verbatim type, got {:?}", other),
    }
    match DataType::decode("uint16") {
        DataType::Other(raw) => assert_eq!(raw, "uint16"),
        other => panic!("expected a verbatim type, got {:?}", other),
    }
}

#[test]
fn translate_direct_mappings() {
    assert_eq!(translate_type(DataType::UInt256).unwrap().to_string(), "number");
    assert_eq!(translate_type(DataType::UInt8).unwrap().to_string(), "number");
    assert_eq!(
        translate_type(DataType::UInt8Array).unwrap().to_string(),
        "Array<number>"
    );
    assert_eq!(
        translate_type(DataType::UInt256Array).unwrap().to_string(),
        "Array<number>"
    );
    assert_eq!(translate_type(DataType::String).unwrap().to_string(), "string");
    assert_eq!(translate_type(DataType::Address).unwrap().to_string(), "string");
    assert_eq!(translate_type(DataType::Bool).unwrap().to_string(), "boolean");
}

#[test]
fn translate_fails_on_opaque_types() {
    let e = translate_type(DataType::Contract("ERC20".to_string())).unwrap_err();
    assert!(matches!(e.0, DataType::Contract(ref n) if n == "ERC20"));
    let e = translate_type(DataType::Enum("Color".to_string())).unwrap_err();
    assert!(matches!(e.0, DataType::Enum(ref n) if n == "Color"));
    let e = translate_type(DataType::Other("tuple".to_string())).unwrap_err();
    assert!(matches!(e.0, DataType::Other(ref n) if n == "tuple"));
}

#[test]
fn contract_abstraction_text() {
    let out = CodeEmitter.emit_contract_abstraction();
    assert_eq!(
        "\nexport default interface AbstractContract {\n   call(target: string, ...args: Array<unknown>): Promise<unknown>;\n}\n",
        out
    );
}

#[test]
fn contract_abstraction_is_idempotent() {
    let first = CodeEmitter.emit_contract_abstraction();
    let second = CodeEmitter.emit_contract_abstraction();
    let third = CodeEmitter.emit_contract_abstraction();
    assert_eq!(first.as_bytes(), second.as_bytes());
    assert_eq!(second.as_bytes(), third.as_bytes());
}

#[test]
fn emit_token_contract() {
    let contract = Contract {
        name: "Token".to_string(),
        abi: vec![AbiEntry::Function {
            name: "balanceOf".to_string(),
            mutability: StateMutability::View,
            constant: false,
            inputs: vec![io("owner", "address")],
            outputs: vec![io("", "uint256")],
        }],
    };
    let out = CodeEmitter.emit(&contract).unwrap();
    assert_eq!(
        "\nimport AbstractContract from \"./AbstractContract\";\nexport default class Token {\n  constructor(private readonly contract: AbstractContract) {}\n  public async balanceOf(owner: string) {\n    return await this.contract.call(\"balanceOf\", owner);\n  }\n}\n",
        out
    );
}

#[test]
fn emit_names_anonymous_parameters_positionally() {
    let contract = Contract {
        name: "Anon".to_string(),
        abi: vec![AbiEntry::Function {
            name: "f".to_string(),
            mutability: StateMutability::NonPayable,
            constant: false,
            inputs: vec![io("", "uint256"), io("x", "uint256"), io("", "uint256")],
            outputs: vec![],
        }],
    };
    let out = CodeEmitter.emit(&contract).unwrap();
    assert_eq!(
        "\nimport AbstractContract from \"./AbstractContract\";\nexport default class Anon {\n  constructor(private readonly contract: AbstractContract) {}\n  public async f(_param0: number, x: number, _param1: number) {\n    return await this.contract.call(\"f\", _param0, x, _param1);\n  }\n}\n",
        out
    );
}

#[test]
fn emit_function_without_inputs() {
    let contract = Contract {
        name: "Clock".to_string(),
        abi: vec![AbiEntry::Function {
            name: "now".to_string(),
            mutability: StateMutability::Pure,
            constant: true,
            inputs: vec![],
            outputs: vec![io("", "uint256")],
        }],
    };
    let out = CodeEmitter.emit(&contract).unwrap();
    assert_eq!(
        "\nimport AbstractContract from \"./AbstractContract\";\nexport default class Clock {\n  constructor(private readonly contract: AbstractContract) {}\n  public async now() {\n    return await this.contract.call(\"now\");\n  }\n}\n",
        out
    );
}

#[test]
fn emit_skips_constructor_and_event_entries() {
    let contract = Contract {
        name: "Quiet".to_string(),
        abi: vec![
            AbiEntry::Constructor {
                inputs: vec![CtorInput {
                    name: "owner".to_string(),
                    internal_type: DataType::decode("address"),
                    input_type: DataType::decode("address"),
                }],
                mutability: StateMutability::NonPayable,
            },
            AbiEntry::Event {
                anonymous: false,
                name: "Transfer".to_string(),
                inputs: vec![EventInput {
                    indexed: true,
                    internal_type: DataType::decode("address"),
                    name: "from".to_string(),
                    input_type: DataType::decode("address"),
                }],
            },
            AbiEntry::Function {
                name: "ping".to_string(),
                mutability: StateMutability::NonPayable,
                constant: false,
                inputs: vec![],
                outputs: vec![],
            },
        ],
    };
    let out = CodeEmitter.emit(&contract).unwrap();
    assert_eq!(
        "\nimport AbstractContract from \"./AbstractContract\";\nexport default class Quiet {\n  constructor(private readonly contract: AbstractContract) {}\n  public async ping() {\n    return await this.contract.call(\"ping\");\n  }\n}\n",
        out
    );
}

#[test]
fn emit_empty_abi() {
    let contract = Contract { name: "Empty".to_string(), abi: vec![] };
    let out = CodeEmitter.emit(&contract).unwrap();
    assert_eq!(
        "\nimport AbstractContract from \"./AbstractContract\";\nexport default class Empty {\n  constructor(private readonly contract: AbstractContract) {}\n}\n",
        out
    );
}

#[test]
fn emit_fails_on_untranslatable_input() {
    let contract = Contract {
        name: "Bad".to_string(),
        abi: vec![AbiEntry::Function {
            name: "take".to_string(),
            mutability: StateMutability::NonPayable,
            constant: false,
            inputs: vec![io("who", "contract ERC20")],
            outputs: vec![],
        }],
    };
    let e = CodeEmitter.emit(&contract).unwrap_err();
    assert!(matches!(e.0, DataType::Contract(ref n) if n == "ERC20"));
}

#[test]
fn emit_fails_on_untranslatable_output() {
    let contract = Contract {
        name: "Bad".to_string(),
        abi: vec![AbiEntry::Function {
            name: "give".to_string(),
            mutability: StateMutability::View,
            constant: false,
            inputs: vec![io("who", "address")],
            outputs: vec![io("", "tuple")],
        }],
    };
    let e = CodeEmitter.emit(&contract).unwrap_err();
    assert!(matches!(e.0, DataType::Other(ref raw) if raw == "tuple"));
}

#[test]
fn emit_reports_inputs_before_outputs() {
    let contract = Contract {
        name: "Bad".to_string(),
        abi: vec![AbiEntry::Function {
            name: "swap".to_string(),
            mutability: StateMutability::NonPayable,
            constant: false,
            inputs: vec![io("a", "enum Color")],
            outputs: vec![io("", "tuple")],
        }],
    };
    let e = CodeEmitter.emit(&contract).unwrap_err();
    assert!(matches!(e.0, DataType::Enum(ref n) if n == "Color"));
}

#[test]
fn emit_reports_earlier_entry_output_before_later_entry_input() {
    let contract = Contract {
        name: "Bad".to_string(),
        abi: vec![
            AbiEntry::Function {
                name: "give".to_string(),
                mutability: StateMutability::View,
                constant: false,
                inputs: vec![],
                outputs: vec![io("", "contract ERC20")],
            },
            AbiEntry::Function {
                name: "take".to_string(),
                mutability: StateMutability::NonPayable,
                constant: false,
                inputs: vec![io("x", "tuple")],
                outputs: vec![],
            },
        ],
    };
    let e = CodeEmitter.emit(&contract).unwrap_err();
    assert!(matches!(e.0, DataType::Contract(ref n) if n == "ERC20"));
}

#[test]
fn emit_reports_first_untranslatable_input() {
    let contract = Contract {
        name: "Bad".to_string(),
        abi: vec![
            AbiEntry::Function {
                name: "fine".to_string(),
                mutability: StateMutability::View,
                constant: false,
                inputs: vec![io("a", "bool")],
                outputs: vec![],
            },
            AbiEntry::Function {
                name: "broken".to_string(),
                mutability: StateMutability::NonPayable,
                constant: false,
                inputs: vec![io("b", "tuple"), io("c", "enum Color")],
                outputs: vec![],
            },
        ],
    };
    let e = CodeEmitter.emit(&contract).unwrap_err();
    assert!(matches!(e.0, DataType::Other(ref raw) if raw == "tuple"));
}

#[test]
fn emit_uses_translated_parameter_types() {
    let contract = Contract {
        name: "Typed".to_string(),
        abi: vec![AbiEntry::Function {
            name: "mix".to_string(),
            mutability: StateMutability::NonPayable,
            constant: false,
            inputs: vec![
                io("n", "uint8"),
                io("s", "string"),
                io("a", "address"),
                io("b", "bool"),
                io("v", "uint8[]"),
                io("w", "uint256[]"),
            ],
            outputs: vec![],
        }],
    };
    let out = CodeEmitter.emit(&contract).unwrap();
    assert_eq!(
        "\nimport AbstractContract from \"./AbstractContract\";\nexport default class Typed {\n  constructor(private readonly contract: AbstractContract) {}\n  public async mix(n: number, s: string, a: string, b: boolean, v: Array<number>, w: Array<number>) {\n    return await this.contract.call(\"mix\", n, s, a, b, v, w);\n  }\n}\n",
        out
    );
}

#[test]
fn emitted_methods_follow_abi_order() {
    let contract = Contract {
        name: "Pair".to_string(),
        abi: vec![
            AbiEntry::Function {
                name: "first".to_string(),
                mutability: StateMutability::View,
                constant: false,
                inputs: vec![],
                outputs: vec![],
            },
            AbiEntry::Function {
                name: "second".to_string(),
                mutability: StateMutability::View,
                constant: false,
                inputs: vec![],
                outputs: vec![],
            },
        ],
    };
    let out = CodeEmitter.emit(&contract).unwrap();
    let first_at = out.find("first").unwrap();
    let second_at = out.find("second").unwrap();
    assert!(first_at < second_at);
    assert_eq!(out.matches("public async").count(), 2);
}

#[test]
fn unsupported_type_is_not_coerced() {
    let contract = Contract {
        name: "Strict".to_string(),
        abi: vec![AbiEntry::Function {
            name: "f".to_string(),
            mutability: StateMutability::NonPayable,
            constant: false,
            inputs: vec![io("x", "enum Color")],
            outputs: vec![],
        }],
    };
    assert!(CodeEmitter.emit(&contract).is_err());
    let kind = ts::Type::Class("untouched".to_string());
    assert_eq!(kind.to_string(), "untouched");
}
