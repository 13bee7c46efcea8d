//! Code generation for extension fields.

use vstd::prelude::*;
use vstd::string::StringExecFns;

use crate::code_writer::const_line;
use crate::code_writer::indent_unit;
use crate::code_writer::indented;
use crate::code_writer::mod_line;
use crate::code_writer::CodeWriter;
use crate::descriptor::field_descriptor_proto::Label;
use crate::descriptor::field_descriptor_proto::Type;
use crate::descriptor::FieldDescriptorProto;
use crate::ident::is_valid_ident;
use crate::ident::join_path;
use crate::ident::RustIdent;
use crate::ident::RustIdentWithPath;

verus! {

/// Decimal digits of `n`.
pub open spec fn decimal(n: nat) -> Seq<char>
    decreases n,
{
    if n < 10 {
        seq![digit_char(n)]
    } else {
        decimal(n / 10) + seq![digit_char(n % 10)]
    }
}

/// The character of a decimal digit.
pub open spec fn digit_char(d: nat) -> char {
    if d == 0 {
        '0'
    } else if d == 1 {
        '1'
    } else if d == 2 {
        '2'
    } else if d == 3 {
        '3'
    } else if d == 4 {
        '4'
    } else if d == 5 {
        '5'
    } else if d == 6 {
        '6'
    } else if d == 7 {
        '7'
    } else if d == 8 {
        '8'
    } else {
        '9'
    }
}

/// Decimal form of an integer, with `-` when negative.
pub open spec fn decimal_i32(n: i32) -> Seq<char> {
    if n < 0 {
        seq!['-'] + decimal((-n) as nat)
    } else {
        decimal(n as nat)
    }
}

fn digit_str(d: u64) -> (r: &'static str)
    requires
        d < 10,
    ensures
        r@ == seq![digit_char(d as nat)],
{
    if d == 0 {
        proof {
            reveal_strlit("0");
        }
        "0"
    } else if d == 1 {
        proof {
            reveal_strlit("1");
        }
        "1"
    } else if d == 2 {
        proof {
            reveal_strlit("2");
        }
        "2"
    } else if d == 3 {
        proof {
            reveal_strlit("3");
        }
        "3"
    } else if d == 4 {
        proof {
            reveal_strlit("4");
        }
        "4"
    } else if d == 5 {
        proof {
            reveal_strlit("5");
        }
        "5"
    } else if d == 6 {
        proof {
            reveal_strlit("6");
        }
        "6"
    } else if d == 7 {
        proof {
            reveal_strlit("7");
        }
        "7"
    } else if d == 8 {
        proof {
            reveal_strlit("8");
        }
        "8"
    } else {
        proof {
            reveal_strlit("9");
        }
        "9"
    }
}

fn append_decimal(r: &mut String, n: u64)
    ensures
        final(r)@ == old(r)@ + decimal(n as nat),
    decreases n,
{
    if n >= 10 {
        append_decimal(r, n / 10);
    }
    r.append(digit_str(n % 10));
    proof {
        if n >= 10 {
            assert(old(r)@ + decimal(n as nat) =~= old(r)@ + decimal((n / 10) as nat) + seq![
                digit_char((n % 10) as nat),
            ]);
        }
    }
}

/// Append the decimal form of `n`.
fn append_i32(r: &mut String, n: i32)
    ensures
        final(r)@ == old(r)@ + decimal_i32(n),
{
    if n < 0 {
        r.append("-");
        proof {
            reveal_strlit("-");
        }
        let m: i64 = -(n as i64);
        append_decimal(r, m as u64);
        assert(final(r)@ =~= old(r)@ + decimal_i32(n));
    } else {
        append_decimal(r, n as u64);
    }
}

/// Rust type of a field of a primitive protobuf type.
pub open spec fn primitive_rust_type(t: Type) -> Seq<char> {
    match t {
        Type::TYPE_DOUBLE => seq!['f', '6', '4'],
        Type::TYPE_FLOAT => seq!['f', '3', '2'],
        Type::TYPE_INT64 => seq!['i', '6', '4'],
        Type::TYPE_UINT64 => seq!['u', '6', '4'],
        Type::TYPE_INT32 => seq!['i', '3', '2'],
        Type::TYPE_FIXED64 => seq!['u', '6', '4'],
        Type::TYPE_FIXED32 => seq!['u', '3', '2'],
        Type::TYPE_BOOL => seq!['b', 'o', 'o', 'l'],
        Type::TYPE_STRING => seq![':', ':', 's', 't', 'd', ':', ':', 's', 't', 'r', 'i', 'n', 'g', ':', ':', 'S', 't', 'r', 'i', 'n', 'g'],
        Type::TYPE_BYTES => seq![':', ':', 's', 't', 'd', ':', ':', 'v', 'e', 'c', ':', ':', 'V', 'e', 'c', '<', 'u', '8', '>'],
        Type::TYPE_UINT32 => seq!['u', '3', '2'],
        Type::TYPE_SFIXED32 => seq!['i', '3', '2'],
        Type::TYPE_SFIXED64 => seq!['i', '6', '4'],
        Type::TYPE_SINT32 => seq!['i', '3', '2'],
        Type::TYPE_SINT64 => seq!['i', '6', '4'],
        _ => Seq::empty(),
    }
}

/// `t` has a Rust type of its own, without a message or enum name.
pub open spec fn is_primitive(t: Type) -> bool {
    t != Type::TYPE_GROUP && t != Type::TYPE_MESSAGE && t != Type::TYPE_ENUM
}

/// Unsigned integer types of protobuf: `uint32`, `uint64`, `fixed32`,
/// `fixed64`.
pub open spec fn is_unsigned_integer(t: Type) -> bool {
    t == Type::TYPE_UINT32 || t == Type::TYPE_UINT64 || t == Type::TYPE_FIXED32 || t
        == Type::TYPE_FIXED64
}

/// Signed integer types of protobuf: `int32`, `int64`, `sint32`, `sint64`,
/// `sfixed32`, `sfixed64`.
pub open spec fn is_signed_integer(t: Type) -> bool {
    t == Type::TYPE_INT32 || t == Type::TYPE_INT64 || t == Type::TYPE_SINT32 || t
        == Type::TYPE_SINT64 || t == Type::TYPE_SFIXED32 || t == Type::TYPE_SFIXED64
}

/// Floating-point types of protobuf: `float`, `double`.
pub open spec fn is_floating_point(t: Type) -> bool {
    t == Type::TYPE_FLOAT || t == Type::TYPE_DOUBLE
}

/// Numeric protobuf types that take 32 bits: `int32`, `uint32`, `sint32`,
/// `fixed32`, `sfixed32`, `float`.
pub open spec fn is_32_bit(t: Type) -> bool {
    t == Type::TYPE_INT32 || t == Type::TYPE_UINT32 || t == Type::TYPE_SINT32 || t
        == Type::TYPE_FIXED32 || t == Type::TYPE_SFIXED32 || t == Type::TYPE_FLOAT
}

/// The Rust type of a numeric protobuf type keeps its signedness and
/// width: `u` for an unsigned integer, `i` for a signed one, `f` for
/// floating point, followed by `32` or `64`; `bool` stays `bool`.
pub proof fn lemma_primitive_rust_type_signedness_and_width(t: Type)
    ensures
        (is_unsigned_integer(t) || is_signed_integer(t) || is_floating_point(t))
            ==> primitive_rust_type(t) == seq![
            if is_unsigned_integer(t) {
                'u'
            } else if is_signed_integer(t) {
                'i'
            } else {
                'f'
            },
        ] + if is_32_bit(t) {
            seq!['3', '2']
        } else {
            seq!['6', '4']
        },
        t == Type::TYPE_BOOL ==> primitive_rust_type(t) == seq!['b', 'o', 'o', 'l'],
{
    assert(seq!['u'] + seq!['3', '2'] =~= seq!['u', '3', '2']);
    assert(seq!['u'] + seq!['6', '4'] =~= seq!['u', '6', '4']);
    assert(seq!['i'] + seq!['3', '2'] =~= seq!['i', '3', '2']);
    assert(seq!['i'] + seq!['6', '4'] =~= seq!['i', '6', '4']);
    assert(seq!['f'] + seq!['3', '2'] =~= seq!['f', '3', '2']);
    assert(seq!['f'] + seq!['6', '4'] =~= seq!['f', '6', '4']);
}

fn primitive_rust_type_str(t: Type) -> (r: &'static str)
    requires
        is_primitive(t),
    ensures
        r@ == primitive_rust_type(t),
{
    match t {
        Type::TYPE_DOUBLE => {
            proof {
                reveal_strlit("f64");
                assert("f64"@ =~= seq!['f', '6', '4']);
            }
            "f64"
        },
        Type::TYPE_FLOAT => {
            proof {
                reveal_strlit("f32");
                assert("f32"@ =~= seq!['f', '3', '2']);
            }
            "f32"
        },
        Type::TYPE_INT64 => {
            proof {
                reveal_strlit("i64");
                assert("i64"@ =~= seq!['i', '6', '4']);
            }
            "i64"
        },
        Type::TYPE_UINT64 => {
            proof {
                reveal_strlit("u64");
                assert("u64"@ =~= seq!['u', '6', '4']);
            }
            "u64"
        },
        Type::TYPE_INT32 => {
            proof {
                reveal_strlit("i32");
                assert("i32"@ =~= seq!['i', '3', '2']);
            }
            "i32"
        },
        Type::TYPE_FIXED64 => {
            proof {
                reveal_strlit("u64");
                assert("u64"@ =~= seq!['u', '6', '4']);
            }
            "u64"
        },
        Type::TYPE_FIXED32 => {
            proof {
                reveal_strlit("u32");
                assert("u32"@ =~= seq!['u', '3', '2']);
            }
            "u32"
        },
        Type::TYPE_BOOL => {
            proof {
                reveal_strlit("bool");
                assert("bool"@ =~= seq!['b', 'o', 'o', 'l']);
            }
            "bool"
        },
        Type::TYPE_STRING => {
            proof {
                reveal_strlit("::std::string::String");
                assert("::std::string::String"@ =~= seq![':', ':', 's', 't', 'd', ':', ':', 's', 't', 'r', 'i', 'n', 'g', ':', ':', 'S', 't', 'r', 'i', 'n', 'g']);
            }
            "::std::string::String"
        },
        Type::TYPE_BYTES => {
            proof {
                reveal_strlit("::std::vec::Vec<u8>");
                assert("::std::vec::Vec<u8>"@ =~= seq![':', ':', 's', 't', 'd', ':', ':', 'v', 'e', 'c', ':', ':', 'V', 'e', 'c', '<', 'u', '8', '>']);
            }
            "::std::vec::Vec<u8>"
        },
        Type::TYPE_UINT32 => {
            proof {
                reveal_strlit("u32");
                assert("u32"@ =~= seq!['u', '3', '2']);
            }
            "u32"
        },
        Type::TYPE_SFIXED32 => {
            proof {
                reveal_strlit("i32");
                assert("i32"@ =~= seq!['i', '3', '2']);
            }
            "i32"
        },
        Type::TYPE_SFIXED64 => {
            proof {
                reveal_strlit("i64");
                assert("i64"@ =~= seq!['i', '6', '4']);
            }
            "i64"
        },
        Type::TYPE_SINT32 => {
            proof {
                reveal_strlit("i32");
                assert("i32"@ =~= seq!['i', '3', '2']);
            }
            "i32"
        },
        Type::TYPE_SINT64 => {
            proof {
                reveal_strlit("i64");
                assert("i64"@ =~= seq!['i', '6', '4']);
            }
            "i64"
        },
        _ => {
            proof {
                reveal_strlit("");
            }
            ""
        },
    }
}

/// How a path is written in code: `a::b::C`.
pub open spec fn path_string(p: RustIdentWithPath) -> Seq<char> {
    if p.path@.len() == 0 {
        p.ident@
    } else {
        join_path(p.path@) + seq![':', ':'] + p.ident@
    }
}

/// `::EnumOrUnknown<`
pub open spec fn enum_or_unknown_open() -> Seq<char> {
    seq![':', ':', 'E', 'n', 'u', 'm', 'O', 'r', 'U', 'n', 'k', 'n', 'o', 'w', 'n', '<']
}

/// Type of the value of a field, for code generation.
pub enum ProtobufTypeGen<'b> {
    /// A type without a name of its own.
    Primitive(Type),
    /// A message type.
    Message(&'b RustIdentWithPath),
    /// An enum type, as stored: possibly unknown.
    EnumOrUnknown(&'b RustIdentWithPath),
}

impl<'b> ProtobufTypeGen<'b> {
    /// The Rust type, written in code.
    pub open spec fn spec_rust_type(&self, protobuf_crate_path: Seq<char>) -> Seq<char> {
        match self {
            ProtobufTypeGen::Primitive(t) => primitive_rust_type(*t),
            ProtobufTypeGen::Message(n) => path_string(**n),
            ProtobufTypeGen::EnumOrUnknown(n) => protobuf_crate_path + enum_or_unknown_open()
                + path_string(**n) + seq!['>'],
        }
    }

    /// The Rust type, written in code.
    pub fn rust_type(&self, protobuf_crate_path: &str) -> (r: String)
        requires
            self matches ProtobufTypeGen::Primitive(t) ==> is_primitive(*t),
        ensures
            r@ == self.spec_rust_type(protobuf_crate_path@),
    {
        match self {
            ProtobufTypeGen::Primitive(t) => primitive_rust_type_str(*t).to_owned(),
            ProtobufTypeGen::Message(n) => n.to_string(),
            ProtobufTypeGen::EnumOrUnknown(n) => {
                let mut r = protobuf_crate_path.to_owned();
                r.append("::EnumOrUnknown<");
                let name = n.to_string();
                r.append(name.as_str());
                r.append(">");
                proof {
                    reveal_strlit("::EnumOrUnknown<");
                    reveal_strlit(">");
                    assert(r@ =~= self.spec_rust_type(protobuf_crate_path@));
                }
                r
            },
        }
    }
}

/// Generator of the code of one extension field.
pub struct ExtGen<'a> {
    /// The extension field.
    pub field: &'a FieldDescriptorProto,
    /// Rust name of the extended message, relative to the `exts` module.
    pub extendee: RustIdentWithPath,
    /// Rust name of the field's message or enum type, relative to the
    /// `exts` module, for message and enum fields.
    pub value_type: Option<RustIdentWithPath>,
    /// Path of the protobuf crate in generated code.
    pub protobuf_crate_path: String,
}

/// `::ext::`
pub open spec fn ext_mod() -> Seq<char> {
    seq![':', ':', 'e', 'x', 't', ':', ':']
}

/// `ExtFieldRepeated`
pub open spec fn ext_field_repeated() -> Seq<char> {
    seq!['E', 'x', 't', 'F', 'i', 'e', 'l', 'd', 'R', 'e', 'p', 'e', 'a', 't', 'e', 'd']
}

/// `ExtFieldOptional`
pub open spec fn ext_field_optional() -> Seq<char> {
    seq!['E', 'x', 't', 'F', 'i', 'e', 'l', 'd', 'O', 'p', 't', 'i', 'o', 'n', 'a', 'l']
}

/// ` { field_number: `
pub open spec fn init_open() -> Seq<char> {
    seq![
        ' ',
        '{',
        ' ',
        'f',
        'i',
        'e',
        'l',
        'd',
        '_',
        'n',
        'u',
        'm',
        'b',
        'e',
        'r',
        ':',
        ' ',
    ]
}

/// `, phantom: ::std::marker::PhantomData }`
pub open spec fn init_close() -> Seq<char> {
    seq![',', ' ', 'p', 'h', 'a', 'n', 't', 'o', 'm', ':', ' '] + seq![
        ':',
        ':',
        's',
        't',
        'd',
        ':',
        ':',
        'm',
        'a',
        'r',
        'k',
        'e',
        'r',
        ':',
        ':',
    ] + seq!['P', 'h', 'a', 'n', 't', 'o', 'm', 'D', 'a', 't', 'a', ' ', '}']
}

impl<'a> ExtGen<'a> {
    /// What `write` needs: the field is not `required`, its name is a valid
    /// identifier, and a named type is a message or an enum whose Rust name
    /// is known.
    pub open spec fn writable(&self) -> bool {
        &&& self.field.label != Label::LABEL_REQUIRED
        &&& is_valid_ident(self.field.name@)
        &&& match self.field.field_type_name {
            Some(_) => (self.field.field_type == Type::TYPE_MESSAGE || self.field.field_type
                == Type::TYPE_ENUM) && self.value_type is Some,
            None => is_primitive(self.field.field_type),
        }
    }

    /// Type of the extension's value.
    pub open spec fn spec_return_type_gen(&self) -> ProtobufTypeGen<'_> {
        match self.field.field_type_name {
            Some(_) => if self.field.field_type == Type::TYPE_MESSAGE {
                ProtobufTypeGen::Message(&self.value_type.unwrap())
            } else {
                ProtobufTypeGen::EnumOrUnknown(&self.value_type.unwrap())
            },
            None => ProtobufTypeGen::Primitive(self.field.field_type),
        }
    }

    /// `{crate}::ext::ExtFieldRepeated` or `{crate}::ext::ExtFieldOptional`.
    pub open spec fn spec_field_type(&self) -> Seq<char> {
        self.protobuf_crate_path@ + ext_mod() + (if self.field.label == Label::LABEL_REPEATED {
            ext_field_repeated()
        } else {
            ext_field_optional()
        })
    }

    /// The line that declares the extension.
    pub open spec fn spec_const_line(&self) -> Seq<char> {
        let field_type = self.spec_field_type();
        const_line(
            self.field.name@,
            field_type + seq!['<'] + path_string(self.extendee) + seq![',', ' ']
                + self.spec_return_type_gen().spec_rust_type(self.protobuf_crate_path@) + seq![
                '>',
            ],
            field_type + init_open() + decimal_i32(self.field.number) + init_close(),
        )
    }

    /// Rust name of the extended message.
    pub fn extendee_rust_name(&self) -> (r: String)
        ensures
            r@ == path_string(self.extendee),
    {
        self.extendee.to_string()
    }

    /// Whether the extension is repeated; a `required` extension is an
    /// error.
    pub fn repeated(&self) -> (r: bool)
        requires
            self.field.label != Label::LABEL_REQUIRED,
        ensures
            r == (self.field.label == Label::LABEL_REPEATED),
    {
        match self.field.label {
            Label::LABEL_REPEATED => true,
            Label::LABEL_OPTIONAL => false,
            Label::LABEL_REQUIRED => false,
        }
    }

    /// Type of the extension's value.
    pub fn return_type_gen(&self) -> (r: ProtobufTypeGen<'_>)
        requires
            self.field.field_type_name is Some ==> (self.field.field_type == Type::TYPE_MESSAGE
                || self.field.field_type == Type::TYPE_ENUM) && self.value_type is Some,
        ensures
            r == self.spec_return_type_gen(),
    {
        match &self.field.field_type_name {
            Some(_) => {
                let rust_name_relative = match &self.value_type {
                    Some(n) => n,
                    None => {
                        return ProtobufTypeGen::Primitive(self.field.field_type);
                    },
                };
                if self.field.field_type == Type::TYPE_MESSAGE {
                    ProtobufTypeGen::Message(rust_name_relative)
                } else {
                    ProtobufTypeGen::EnumOrUnknown(rust_name_relative)
                }
            },
            None => ProtobufTypeGen::Primitive(self.field.field_type),
        }
    }

    /// Write the declaration of the extension:
    /// `pub const NAME: FIELD_TYPE<EXTENDEE, VALUE_TYPE> = FIELD_TYPE { field_number: N, phantom: ::std::marker::PhantomData };`
    pub fn write(&self, w: &mut CodeWriter)
        requires
            self.writable(),
        ensures
            final(w).lines() == old(w).lines().push(
                indented(old(w).indent(), self.spec_const_line()),
            ),
            final(w).indent() == old(w).indent(),
    {
        let suffix = if self.repeated() {
            "ExtFieldRepeated"
        } else {
            "ExtFieldOptional"
        };
        let mut field_type = self.protobuf_crate_path.clone();
        field_type.append("::ext::");
        field_type.append(suffix);
        proof {
            reveal_strlit("ExtFieldRepeated");
            reveal_strlit("ExtFieldOptional");
            reveal_strlit("::ext::");
            assert(field_type@ =~= self.spec_field_type());
        }

        let name = RustIdent::new(self.field.name.as_str());

        let mut ty = field_type.clone();
        ty.append("<");
        let extendee = self.extendee_rust_name();
        ty.append(extendee.as_str());
        ty.append(", ");
        let value_type = self.return_type_gen().rust_type(self.protobuf_crate_path.as_str());
        ty.append(value_type.as_str());
        ty.append(">");

        let mut init = field_type.clone();
        init.append(" { field_number: ");
        append_i32(&mut init, self.field.number);
        init.append(", phantom: ::std::marker::PhantomData }");

        proof {
            reveal_strlit("<");
            reveal_strlit(", ");
            reveal_strlit(">");
            reveal_strlit(" { field_number: ");
            reveal_strlit(", phantom: ::std::marker::PhantomData }");
            assert(init_close() =~= ", phantom: ::std::marker::PhantomData }"@);
        }
        let name_str = name.get();
        w.pub_const(name_str, ty.as_str(), init.as_str());
        assert(const_line(name_str@, ty@, init@) =~= self.spec_const_line());
    }
}

/// `/// Extension fields`
pub open spec fn extension_fields_comment() -> Seq<char> {
    seq!['/', '/', '/', ' ', 'E', 'x', 't', 'e', 'n', 's', 'i', 'o', 'n', ' '] + seq![
        'f',
        'i',
        'e',
        'l',
        'd',
        's',
    ]
}

/// Lines written for the extensions, at indentation `indent`: for each one
/// that is not a group, an empty line and its declaration.
pub open spec fn extension_lines<'a>(exts: Seq<ExtGen<'a>>, indent: Seq<char>) -> Seq<Seq<char>>
    decreases exts.len(),
{
    if exts.len() == 0 {
        Seq::empty()
    } else {
        let prev = extension_lines(exts.drop_last(), indent);
        if exts.last().field.field_type == Type::TYPE_GROUP {
            prev
        } else {
            prev + seq![Seq::empty(), indented(indent, exts.last().spec_const_line())]
        }
    }
}

/// Write the `exts` module that declares the file's extensions; nothing
/// when there are none. Group extensions are left out.
pub fn write_extensions<'a>(exts: &[ExtGen<'a>], w: &mut CodeWriter)
    requires
        forall|i: int|
            0 <= i < exts@.len() && (#[trigger] exts@[i]).field.field_type != Type::TYPE_GROUP
                ==> exts@[i].writable(),
    ensures
        final(w).indent() == old(w).indent(),
        exts@.len() == 0 ==> final(w).lines() == old(w).lines(),
        exts@.len() != 0 ==> final(w).lines() == old(w).lines() + seq![
            Seq::empty(),
            indented(old(w).indent(), extension_fields_comment()),
            indented(old(w).indent(), mod_line(seq!['e', 'x', 't', 's'])),
        ] + extension_lines(exts@, old(w).indent() + indent_unit()) + seq![
            indented(old(w).indent(), seq!['}']),
        ],
{
    if exts.len() == 0 {
        return;
    }
    w.write_line("");
    w.write_line("/// Extension fields");
    w.pub_mod_begin("exts");
    proof {
        reveal_strlit("");
        reveal_strlit("/// Extension fields");
        reveal_strlit("exts");
        assert(""@ =~= Seq::<char>::empty());
        assert("/// Extension fields"@ =~= extension_fields_comment());
        assert("exts"@ =~= seq!['e', 'x', 't', 's']);
    }
    let ghost start = w.lines();
    let ghost inner = w.indent();
    let mut i: usize = 0;
    while i < exts.len()
        invariant
            i <= exts@.len(),
            w.indent() == inner,
            inner == old(w).indent() + indent_unit(),
            w.lines() == start + extension_lines(exts@.take(i as int), inner),
            forall|k: int|
                0 <= k < exts@.len() && (#[trigger] exts@[k]).field.field_type != Type::TYPE_GROUP
                    ==> exts@[k].writable(),
        decreases exts@.len() - i,
    {
        let field = &exts[i];
        assert(exts@.take(i + 1).drop_last() =~= exts@.take(i as int));
        if field.field.field_type == Type::TYPE_GROUP {
            i = i + 1;
            continue;
        }
        let ghost before = w.lines();
        w.write_line("");
        proof {
            reveal_strlit("");
            assert(""@ =~= Seq::<char>::empty());
        }
        field.write(w);
        assert(w.lines() =~= start + extension_lines(exts@.take(i + 1), inner));
        i = i + 1;
    }
    assert(exts@.take(i as int) =~= exts@);
    let ghost before_end = w.lines();
    w.block_end();
    proof {
        assert(inner.take(inner.len() - 4) =~= old(w).indent());
    }
}

} // verus!
