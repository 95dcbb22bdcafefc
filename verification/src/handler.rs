//! Instruction handlers: what the `program` macro generates for each of them.

use crate::args::{
    any_borrows, arg_fields, arg_names, args_meta, args_reader, emit_args_deser, fields_of, ix_type,
    ix_types, names_of, Argument,
};
use crate::attrs::{cfg_attrs, cfg_text};
use crate::discriminator::{
    copy_bytes, default_instruction_discriminator, hashed, may_write, write_disc, writes_any,
};
use crate::failure::{diagnostic, new_diagnostic, Failure, FailureView, Span};
use crate::handler_fn::{FnArg, HandlerFn, Pat};
use crate::names::{camel_case, item_name, new_ident, to_camel_case};
use crate::outside::{literal_of, string_literal};
use crate::qualified_path::{
    extract_context_accounts_path, extract_result_return_type, handler_accounts, helper_module,
    leaf, returned, QualifiedTypePath,
};
use crate::syntax::{path_text, print_path, print_type, type_text, Ident, Path, Type};
use crate::template::{fill1, fill10, fill11, fill2, fill3, fill7, filled};
use crate::text::{
    concat_all, concat_strings, decimal, decimal_text, join_strings, joined, map_texts,
    terminate_strings, terminated, texts,
};
use crate::wincode::failure_view;
use vstd::prelude::*;

verus! {

/// What the interface description says of a handler besides its discriminator, as text:
/// an expression for the type of its value, its documentation as a JSON array, and an
/// expression for its arguments.
pub struct HandlerIdl {
    pub returns: String,
    pub docs: Option<String>,
    pub args: String,
}

/// What is generated for a handler, as text.
pub struct HandlerCodegen {
    pub error: Option<Failure>,
    pub dispatch_arm: String,
    pub wrapper: String,
    pub instruction_struct: String,
    pub accounts_reexport: String,
    pub cpi_wrapper: String,
    pub cpi_accounts_reexport: String,
    pub accounts_type_name: String,
    pub idl_name: String,
    pub idl_disc: String,
    pub idl_args: String,
    pub idl_returns_json: String,
    pub idl_docs_json: String,
    pub idl_accounts_type: String,
    pub arg_types: Vec<String>,
    pub return_type: Option<String>,
}

/// What is generated for a handler, as sequences of characters.
#[verifier::ext_equal]
pub struct HandlerCodeView {
    pub error: Option<FailureView>,
    pub dispatch_arm: Seq<char>,
    pub wrapper: Seq<char>,
    pub instruction_struct: Seq<char>,
    pub accounts_reexport: Seq<char>,
    pub cpi_wrapper: Seq<char>,
    pub cpi_accounts_reexport: Seq<char>,
    pub accounts_type_name: Seq<char>,
    pub idl_name: Seq<char>,
    pub idl_disc: Seq<char>,
    pub idl_args: Seq<char>,
    pub idl_returns_json: Seq<char>,
    pub idl_docs_json: Seq<char>,
    pub idl_accounts_type: Seq<char>,
    pub arg_types: Seq<Seq<char>>,
    pub return_type: Option<Seq<char>>,
}

impl View for HandlerCodegen {
    type V = HandlerCodeView;

    open spec fn view(&self) -> HandlerCodeView {
        HandlerCodeView {
            error: failure_view(self.error),
            dispatch_arm: self.dispatch_arm@,
            wrapper: self.wrapper@,
            instruction_struct: self.instruction_struct@,
            accounts_reexport: self.accounts_reexport@,
            cpi_wrapper: self.cpi_wrapper@,
            cpi_accounts_reexport: self.cpi_accounts_reexport@,
            accounts_type_name: self.accounts_type_name@,
            idl_name: self.idl_name@,
            idl_disc: self.idl_disc@,
            idl_args: self.idl_args@,
            idl_returns_json: self.idl_returns_json@,
            idl_docs_json: self.idl_docs_json@,
            idl_accounts_type: self.idl_accounts_type@,
            arg_types: texts(self.arg_types@),
            return_type: crate::text::option_text(self.return_type),
        }
    }
}

/// What is generated for a handler, or the failure.
pub open spec fn codegen_view(codegen: Result<HandlerCodegen, Failure>) -> Result<
    HandlerCodeView,
    FailureView,
> {
    match codegen {
        Ok(codegen) => Ok(codegen@),
        Err(failure) => Err(failure@),
    }
}

/// The function that stands in for a handler that was refused.
pub const ERROR_WRAPPER: &'static str = r#"#[allow(non_snake_case)]
pub fn @a() {
    ::core::compile_error! { @b }
}"#;

/// The expression for what a handler returns.
pub const RETURNS_JSON: &'static str = r#"{
    let mut __s = anchor_lang::__alloc::string::String::from(",\"returns\":");
    __s.push_str(@a);
    __s
}"#;

/// The statements that hand the value of a handler to the runtime.
pub const SET_RETURN_DATA: &'static str = r#"let mut __return_data = anchor_lang::__alloc::vec::Vec::with_capacity(256);
anchor_lang::wincode::config::serialize_into(
    &mut __return_data,
    &__result,
    anchor_lang::BORSH_CONFIG,
)
    .expect("return data serialization failed");
anchor_lang::pinocchio::cpi::set_return_data(&__return_data);"#;

/// Calls a handler whose discriminator is one byte.
pub const DISPATCH_BYTE: &'static str = r#"@a
if __ix_data_len >= 1 && *__ix_data_ptr == @b {
    let __ix_data: &[u8] =
        ::core::slice::from_raw_parts(__ix_data_ptr.add(1), __ix_data_len - 1);
    return __handlers::@c(__program_id, &mut __cursor, __ix_data, __num);
}"#;

/// Calls a handler whose discriminator is eight bytes.
pub const DISPATCH_WORD: &'static str = r#"@a
if __ix_data_len >= 8
    && u64::from_le_bytes(*(__ix_data_ptr as *const [u8; 8])) == @b
{
    let __ix_data: &[u8] =
        ::core::slice::from_raw_parts(__ix_data_ptr.add(8), __ix_data_len - 8);
    return __handlers::@c(__program_id, &mut __cursor, __ix_data, __num);
}"#;

/// The wrapper of a handler that takes no arguments.
pub const WRAPPER_WITHOUT_ARGS: &'static str = r#"@a
#[inline(always)]
pub fn @b<'a>(
    __program_id: &'a anchor_lang::Address,
    __cursor: &'a mut anchor_lang::AccountCursor,
    __ix_data: &'a [u8],
    __num_accounts: usize,
) -> u64 {
    #[cfg(not(feature = "no-log-ix-name"))]
    anchor_lang::msg!(@c);

    #[inline(always)]
    fn __anchor_assert_no_ix_args(_: ()) {}

    match anchor_lang::run_handler::<@d, @e>(
        __program_id,
        __cursor,
        __ix_data,
        __num_accounts,
        |__ctx, __ix_args| {
            __anchor_assert_no_ix_args(__ix_args);
            @f::@b(__ctx)
        },
    ) {
        Ok(__result) => {
            @g
            0
        },
        Err(__e) => __e.into(),
    }
}"#;

/// The wrapper of a handler that takes arguments.
pub const WRAPPER_WITH_ARGS: &'static str = r#"@a
#[inline(always)]
pub fn @b<'a>(
    __program_id: &'a anchor_lang::Address,
    __cursor: &'a mut anchor_lang::AccountCursor,
    __ix_data: &'a [u8],
    __num_accounts: usize,
) -> u64 {
    #[cfg(not(feature = "no-log-ix-name"))]
    anchor_lang::msg!(@c);

    trait __AnchorIxArgCoerce<'ix> {
        fn __coerce(self, __ix_data: &'ix [u8]) -> anchor_lang::Result<@d>;
    }

    impl<'ix, __AnchorIxArgs> __AnchorIxArgCoerce<'ix> for __AnchorIxArgs {
        #[inline(always)]
        fn __coerce(self, __ix_data: &'ix [u8]) -> anchor_lang::Result<@d> {
            let _ = self;
            @e
            Ok((@f))
        }
    }

    match anchor_lang::run_handler::<@g, @h>(
        __program_id,
        __cursor,
        __ix_data,
        __num_accounts,
        |__ctx, __ix_args| {
            let (@f) =
                <_ as __AnchorIxArgCoerce<'a>>::__coerce(__ix_args, __ix_data)?;
            @i::@b(__ctx, @j)
        },
    ) {
        Ok(__result) => {
            @k
            0
        },
        Err(__e) => __e.into(),
    }
}"#;

/// The struct by which a client writes an instruction.
pub const INSTRUCTION_STRUCT: &'static str = r#"@a
#[derive(anchor_lang::AnchorSerialize)]
pub struct @b @c {
    @d
}
@a
impl @c anchor_lang::Discriminator for @b @e {
    const DISCRIMINATOR: &'static [u8] = &[@f];
}
@a
impl @c anchor_lang::InstructionData for @b @e {
    fn data(&self) -> alloc::vec::Vec<u8> {
        let mut data = alloc::vec::Vec::with_capacity(256);
        data.extend_from_slice(Self::DISCRIMINATOR);
        anchor_lang::wincode::config::serialize_into(
            &mut data,
            self,
            anchor_lang::BORSH_CONFIG,
        )
            .expect("instruction serialization failed");
        data
    }
}
@a
impl @c @b @e {
    pub fn to_instruction(
        self,
        accounts: impl anchor_lang::ToAccountMetas,
    ) -> anchor_lang::solana_program::instruction::Instruction {
        anchor_lang::solana_program::instruction::Instruction::new_with_bytes(
            @g,
            &<Self as anchor_lang::InstructionData>::data(&self),
            accounts.to_account_metas(None),
        )
    }
}"#;

/// The accounts of a handler, for clients.
pub const ACCOUNTS_REEXPORT: &'static str = r#"pub use @a::@b;
pub use @a::@c;"#;

/// The accounts of a handler, for other programs.
pub const CPI_ACCOUNTS_REEXPORT: &'static str = r#"pub use @a::@b;"#;

/// What a call from another program returns where the handler returns a value.
pub const CPI_RETURN: &'static str = r#"Ok(Return {
    program: *__ctx.program,
    phantom: core::marker::PhantomData,
})"#;

/// The function by which another program calls a handler.
pub const CPI_WRAPPER: &'static str = r#"@a
pub fn @b @c(
    __ctx: anchor_lang::CpiContext<'a, accounts::@d<'a>>,
    @e
) @f {
    let __ix = super::instruction::@g {
        @h
    };
    let __data = <
        super::instruction::@g @i
        as anchor_lang::InstructionData
    >::data(&__ix);
    __ctx.invoke(&__data)?;
    @j
}"#;

// ---------------------------------------------------------------------------
// Bytes
// ---------------------------------------------------------------------------

/// A byte as a literal.
pub open spec fn byte_literal(byte: u8) -> Seq<char> {
    decimal(byte as nat) + "u8"@
}

/// Bytes as literals, parted by commas.
pub open spec fn byte_literals(bytes: Seq<u8>) -> Seq<char> {
    joined(bytes.map_values(|byte: u8| byte_literal(byte)), ", "@)
}

/// The number that eight bytes write, the least significant first.
pub open spec fn le_word(bytes: Seq<u8>) -> nat {
    (bytes[0] + 0x100 * bytes[1] + 0x1_0000 * bytes[2] + 0x100_0000 * bytes[3] + 0x1_0000_0000
        * bytes[4] + 0x100_0000_0000 * bytes[5] + 0x1_0000_0000_0000 * bytes[6]
        + 0x100_0000_0000_0000 * bytes[7]) as nat
}

/// Writes bytes as literals.
pub fn print_byte_literals(bytes: &Vec<u8>) -> (out: String)
    ensures
        out@ == byte_literals(bytes@),
{
    let literals = map_texts(
        bytes,
        |byte: &u8| -> (s: String)
            ensures
                s@ == byte_literal(*byte)
            { decimal_text(*byte as u64).concat("u8") },
        Ghost(|byte: u8| byte_literal(byte)),
    );
    join_strings(&literals, ", ")
}

/// The number that eight bytes write, the least significant first.
pub fn read_le_word(bytes: &Vec<u8>) -> (word: u64)
    requires
        bytes@.len() == 8,
    ensures
        word == le_word(bytes@),
{
    bytes[0] as u64 + 0x100 * bytes[1] as u64 + 0x1_0000 * bytes[2] as u64 + 0x100_0000
        * bytes[3] as u64 + 0x1_0000_0000 * bytes[4] as u64 + 0x100_0000_0000 * bytes[5] as u64
        + 0x1_0000_0000_0000 * bytes[6] as u64 + 0x100_0000_0000_0000 * bytes[7] as u64
}

// ---------------------------------------------------------------------------
// Dispatch
// ---------------------------------------------------------------------------

/// The bytes that the instruction data of a handler begins with: those that an
/// attribute gives, or those that follow from its name.
pub open spec fn discriminator_bytes(name: Seq<char>, discrim: Option<Seq<u8>>) -> Seq<u8> {
    match discrim {
        Some(bytes) => bytes,
        None => hashed("global"@, name),
    }
}

/// The statement that calls a handler when the instruction data begins with the
/// given bytes. Only one byte and eight bytes can be dispatched on.
pub open spec fn dispatch_on(cfg: Seq<char>, name: Seq<char>, bytes: Seq<u8>) -> Seq<char> {
    if bytes.len() == 1 {
        filled(DISPATCH_BYTE@, seq![cfg, byte_literal(bytes[0]), name])
    } else if bytes.len() == 8 {
        filled(DISPATCH_WORD@, seq![cfg, decimal(le_word(bytes)) + "u64"@, name])
    } else {
        ""@
    }
}

fn print_dispatch(cfg: &str, name: &str, bytes: &Vec<u8>) -> (out: String)
    ensures
        out@ == dispatch_on(cfg@, name@, bytes@),
{
    if bytes.len() == 1 {
        fill3(DISPATCH_BYTE, cfg, decimal_text(bytes[0] as u64).concat("u8").as_str(), name)
    } else if bytes.len() == 8 {
        fill3(
            DISPATCH_WORD,
            cfg,
            decimal_text(read_le_word(bytes)).concat("u64").as_str(),
            name,
        )
    } else {
        "".to_owned()
    }
}

// ---------------------------------------------------------------------------
// Arguments
// ---------------------------------------------------------------------------

/// The arguments among parameters: those that are bound to a name.
pub open spec fn bound_args<'a>(inputs: Seq<FnArg>) -> Seq<Argument<'a>>
    decreases inputs.len(),
{
    if inputs.len() == 0 {
        Seq::empty()
    } else {
        let before = bound_args(inputs.drop_last());
        match inputs.last() {
            FnArg::Typed(typed) => match typed.pat {
                Pat::Ident { ident, .. } => before.push(Argument { name: &ident, ty: &typed.ty }),
                _ => before,
            },
            _ => before,
        }
    }
}

/// The arguments of a handler: its parameters behind the context that are bound to a
/// name.
pub open spec fn handler_args<'a>(handler: HandlerFn) -> Seq<Argument<'a>> {
    bound_args(handler.inputs@.skip(1))
}

fn find_args<'a>(handler: &'a HandlerFn) -> (args: Vec<Argument<'a>>)
    requires
        handler.inputs@.len() > 0,
    ensures
        args@ == handler_args(*handler),
{
    let mut args: Vec<Argument<'a>> = Vec::new();
    let inputs = &handler.inputs;
    assert(inputs@.subrange(1, 1) == Seq::<FnArg>::empty());
    for i in 1..inputs.len()
        invariant
            inputs@ == handler.inputs@,
            inputs@.len() > 0,
            args@ == bound_args(inputs@.subrange(1, i as int)),
    {
        assert(inputs@.subrange(1, i + 1).drop_last() == inputs@.subrange(1, i as int));
        if let FnArg::Typed(typed) = &inputs[i] {
            if let Pat::Ident { ident, .. } = &typed.pat {
                args.push(Argument { name: ident, ty: &typed.ty });
            }
        }
    }
    assert(inputs@.subrange(1, inputs@.len() as int) == inputs@.skip(1));
    args
}

/// Each argument as a public field, with a comma behind it.
pub open spec fn pub_fields(args: Seq<Argument>) -> Seq<char> {
    concat_all(
        args.map_values(
            |arg: Argument| "pub "@ + arg.name.text@ + ": "@ + ix_type(*arg.ty) + ", "@,
        ),
    )
}

fn print_pub_fields(args: &Vec<Argument>, arg_types: &Vec<String>) -> (out: String)
    requires
        texts(arg_types@) == ix_types(args@),
    ensures
        out@ == pub_fields(args@),
{
    let mut fields: Vec<String> = Vec::new();
    let ghost all = args@.map_values(
        |arg: Argument| "pub "@ + arg.name.text@ + ": "@ + ix_type(*arg.ty) + ", "@,
    );
    assert(texts(arg_types@).len() == args@.len());
    for i in 0..args.len()
        invariant
            texts(arg_types@) == ix_types(args@),
            arg_types@.len() == args@.len(),
            fields@.len() == i,
            all == args@.map_values(
                |arg: Argument| "pub "@ + arg.name.text@ + ": "@ + ix_type(*arg.ty) + ", "@,
            ),
            forall|k: int| 0 <= k < i ==> (#[trigger] fields@[k])@ == all[k],
    {
        assert(texts(arg_types@)[i as int] == ix_types(args@)[i as int]);
        fields.push(
            "pub ".to_owned().concat(args[i].name.text.as_str()).concat(": ").concat(
                arg_types[i].as_str(),
            ).concat(", "),
        );
    }
    assert(texts(fields@) == all);
    concat_strings(&fields)
}

// ---------------------------------------------------------------------------
// The pieces
// ---------------------------------------------------------------------------

/// What the pieces of a handler are made of.
pub struct HandlerParts<'a> {
    pub cfg: Seq<char>,
    pub name: Seq<char>,
    pub module: Seq<char>,
    pub accounts: Path,
    pub args: Seq<Argument<'a>>,
    pub value: Option<Type>,
    pub discrim: Option<Seq<u8>>,
    pub program_id: Seq<char>,
}

/// The type that a handler returns a value of, as text.
pub open spec fn value_text(value: Option<Type>) -> Seq<char> {
    match value {
        Some(ty) => type_text(ty, None),
        None => "()"@,
    }
}

/// The statements that hand the value of a handler to the runtime.
pub open spec fn return_data(value: Option<Type>) -> Seq<char> {
    if value is Some {
        SET_RETURN_DATA@
    } else {
        ""@
    }
}

/// The wrapper that reads the arguments of a handler and calls it.
pub open spec fn wrapper_text(parts: HandlerParts) -> Seq<char> {
    let log = literal_of("Instruction: "@ + parts.name);
    if parts.args.len() == 0 {
        filled(
            WRAPPER_WITHOUT_ARGS@,
            seq![
                parts.cfg,
                parts.name,
                log,
                path_text(parts.accounts),
                value_text(parts.value),
                parts.module,
                return_data(parts.value),
            ],
        )
    } else {
        filled(
            WRAPPER_WITH_ARGS@,
            seq![
                parts.cfg,
                parts.name,
                log,
                "("@ + terminated(ix_types(parts.args), ", "@) + ")"@,
                args_reader(parts.args, "__Args"@, false),
                terminated(arg_names(parts.args), ", "@),
                path_text(parts.accounts),
                value_text(parts.value),
                parts.module,
                joined(arg_names(parts.args), ", "@),
                return_data(parts.value),
            ],
        )
    }
}

/// The lifetime of the instruction data as a generic parameter, where it is needed.
pub open spec fn ix_generic(args: Seq<Argument>) -> Seq<char> {
    if any_borrows(args) {
        "<'ix>"@
    } else {
        ""@
    }
}

/// The struct by which a client writes an instruction.
pub open spec fn instruction_struct_text(parts: HandlerParts, struct_name: Seq<char>) -> Seq<char> {
    filled(
        INSTRUCTION_STRUCT@,
        seq![
            parts.cfg,
            struct_name,
            ix_generic(parts.args),
            pub_fields(parts.args),
            ix_generic(parts.args),
            byte_literals(discriminator_bytes(parts.name, parts.discrim)),
            parts.program_id,
        ],
    )
}

/// What a call from another program returns.
pub open spec fn cpi_return_type(value: Option<Type>) -> Seq<char> {
    match value {
        Some(ty) => "-> anchor_lang::Result<Return<"@ + type_text(ty, None) + ">>"@,
        None => "-> anchor_lang::Result<()>"@,
    }
}

/// The function by which another program calls a handler.
pub open spec fn cpi_wrapper_text(parts: HandlerParts, struct_name: Seq<char>) -> Seq<char> {
    filled(
        CPI_WRAPPER@,
        seq![
            parts.cfg,
            parts.name,
            if any_borrows(parts.args) { "<'a, 'ix>"@ } else { "<'a>"@ },
            leaf(parts.accounts).text@,
            arg_fields(parts.args),
            cpi_return_type(parts.value),
            struct_name,
            terminated(arg_names(parts.args), ", "@),
            ix_generic(parts.args),
            if parts.value is Some { CPI_RETURN@ } else { "Ok(())"@ },
        ],
    )
}

/// The documentation of a handler in the interface description.
pub open spec fn docs_json(docs: Option<String>) -> Seq<char> {
    match docs {
        Some(docs) => ",\"docs\":"@ + docs@,
        None => ""@,
    }
}

/// What the interface description says that a handler returns.
pub open spec fn returns_json(value: Option<Type>, idl: HandlerIdl) -> Seq<char> {
    if value is Some {
        filled(RETURNS_JSON@, seq![idl.returns@])
    } else {
        "\"\""@
    }
}

/// The type of each argument, as it is written.
pub open spec fn plain_types(args: Seq<Argument>) -> Seq<Seq<char>> {
    args.map_values(|arg: Argument| type_text(*arg.ty, None))
}

/// What is generated for a handler that was not refused, with its discriminator as JSON.
pub open spec fn accepted_code(parts: HandlerParts, idl: HandlerIdl, disc: Seq<char>) -> Result<
    HandlerCodeView,
    FailureView,
> {
    let accounts_name = leaf(parts.accounts).text@;
    match item_name(camel_case(parts.name)) {
        Err(failure) => Err(failure),
        Ok(struct_name) => match helper_module(parts.accounts, "__client_accounts_"@, 1) {
            Err(failure) => Err(failure),
            Ok(client_mod) => match item_name(accounts_name + "Resolved"@) {
                Err(failure) => Err(failure),
                Ok(resolved) => match helper_module(parts.accounts, "__cpi_accounts_"@, 2) {
                    Err(failure) => Err(failure),
                    Ok(cpi_mod) => Ok(
                        HandlerCodeView {
                            error: None,
                            dispatch_arm: dispatch_on(
                                parts.cfg,
                                parts.name,
                                discriminator_bytes(parts.name, parts.discrim),
                            ),
                            wrapper: wrapper_text(parts),
                            instruction_struct: instruction_struct_text(parts, struct_name),
                            accounts_reexport: filled(
                                ACCOUNTS_REEXPORT@,
                                seq![client_mod, accounts_name, resolved],
                            ),
                            cpi_wrapper: cpi_wrapper_text(parts, struct_name),
                            cpi_accounts_reexport: filled(
                                CPI_ACCOUNTS_REEXPORT@,
                                seq![cpi_mod, accounts_name],
                            ),
                            accounts_type_name: path_text(parts.accounts),
                            idl_name: parts.name,
                            idl_disc: disc,
                            idl_args: idl.args@,
                            idl_returns_json: returns_json(parts.value, idl),
                            idl_docs_json: docs_json(idl.docs),
                            idl_accounts_type: path_text(parts.accounts),
                            arg_types: plain_types(parts.args),
                            return_type: match parts.value {
                                Some(ty) => Some(type_text(ty, None)),
                                None => None,
                            },
                        },
                    ),
                },
            },
        },
    }
}

/// What is generated for a handler that was refused.
pub open spec fn refused_code(name: Seq<char>, span: Span, message: Seq<char>) -> HandlerCodeView {
    HandlerCodeView {
        error: Some(diagnostic(span, message)),
        dispatch_arm: ""@,
        wrapper: filled(ERROR_WRAPPER@, seq![name, literal_of(message)]),
        instruction_struct: ""@,
        accounts_reexport: ""@,
        cpi_wrapper: ""@,
        cpi_accounts_reexport: ""@,
        accounts_type_name: ""@,
        idl_name: name,
        idl_disc: "[]"@,
        idl_args: "\"[]\""@,
        idl_returns_json: "\"\""@,
        idl_docs_json: ""@,
        idl_accounts_type: "()"@,
        arg_types: Seq::empty(),
        return_type: None,
    }
}

/// Why a handler without parameters is refused.
pub const NO_CONTEXT: &'static str = "handler must have a `ctx: &mut Context<T>` parameter";

/// Why a handler is refused, if it is: its return type, or its context.
pub open spec fn handler_refusal(handler: HandlerFn) -> Option<FailureView> {
    match returned(handler.output) {
        Err(failure) => Some(failure),
        Ok(_) => if handler.inputs@.len() == 0 {
            Some(diagnostic(handler.ident.span, NO_CONTEXT@))
        } else {
            match handler_accounts(handler.inputs@[0]) {
                Err(failure) => Some(failure),
                Ok(_) => None,
            }
        },
    }
}

/// What is generated for a handler, with its discriminator as JSON.
pub open spec fn handler_code(
    handler: HandlerFn,
    mod_name: Seq<char>,
    discrim: Option<Seq<u8>>,
    program_id: Seq<char>,
    idl: HandlerIdl,
    disc: Seq<char>,
) -> Result<HandlerCodeView, FailureView> {
    match handler_refusal(handler) {
        Some(FailureView::Diagnostic { span, message }) => Ok(
            refused_code(handler.ident.text@, span, message),
        ),
        Some(failure) => Err(failure),
        None => accepted_code(
            HandlerParts {
                cfg: cfg_text(handler.attrs@),
                name: handler.ident.text@,
                module: mod_name,
                accounts: handler_accounts(handler.inputs@[0])->Ok_0,
                args: handler_args(handler),
                value: returned(handler.output)->Ok_0,
                discrim,
                program_id,
            },
            idl,
            disc,
        ),
    }
}

impl HandlerCodegen {
    /// What is generated for a handler that was refused.
    pub fn error(name: &str, span: Span, message: String) -> (out: HandlerCodegen)
        ensures
            out@ == refused_code(name@, span, message@),
    {
        let wrapper = fill2(ERROR_WRAPPER, name, string_literal(message.as_str()).as_str());
        let out = HandlerCodegen {
            error: Some(new_diagnostic(span, message)),
            dispatch_arm: "".to_owned(),
            wrapper,
            instruction_struct: "".to_owned(),
            accounts_reexport: "".to_owned(),
            cpi_wrapper: "".to_owned(),
            cpi_accounts_reexport: "".to_owned(),
            accounts_type_name: "".to_owned(),
            idl_name: name.to_owned(),
            idl_disc: "[]".to_owned(),
            idl_args: "\"[]\"".to_owned(),
            idl_returns_json: "\"\"".to_owned(),
            idl_docs_json: "".to_owned(),
            idl_accounts_type: "()".to_owned(),
            arg_types: Vec::new(),
            return_type: None,
        };
        assert(texts(out.arg_types@) == Seq::<Seq<char>>::empty());
        out
    }
}

/// The executable counterpart of the parts of a handler.
struct Pieces<'a> {
    cfg: String,
    name: &'a str,
    module: &'a str,
    accounts: QualifiedTypePath<'a>,
    args: Vec<Argument<'a>>,
    value: Option<&'a Type>,
    discrim: &'a Option<Vec<u8>>,
    program_id: &'a str,
}

impl<'a> Pieces<'a> {
    spec fn parts(&self) -> HandlerParts<'a> {
        HandlerParts {
            cfg: self.cfg@,
            name: self.name@,
            module: self.module@,
            accounts: *self.accounts.path,
            args: self.args@,
            value: crate::cpi_accounts::found(self.value),
            discrim: given_bytes(*self.discrim),
            program_id: self.program_id@,
        }
    }

    spec fn valid(&self) -> bool {
        &&& self.accounts.path.segments@.len() > 0
        &&& *self.accounts.leaf_ident == leaf(*self.accounts.path)
    }

    fn value_text(&self) -> (out: String)
        ensures
            out@ == value_text(self.parts().value),
    {
        match self.value {
            Some(ty) => print_type(ty),
            None => "()".to_owned(),
        }
    }

    fn bytes(&self) -> (out: Vec<u8>)
        ensures
            out@ == discriminator_bytes(self.parts().name, self.parts().discrim),
    {
        find_discriminator(self.name, self.discrim)
    }

    fn wrapper(&self) -> (out: String)
        ensures
            out@ == wrapper_text(self.parts()),
    {
        let log = string_literal("Instruction: ".to_owned().concat(self.name).as_str());
        let accounts = print_path(self.accounts.path);
        let value = self.value_text();
        let set_return_data = if self.value.is_some() { SET_RETURN_DATA } else { "" };
        if self.args.len() == 0 {
            fill7(
                WRAPPER_WITHOUT_ARGS,
                self.cfg.as_str(),
                self.name,
                log.as_str(),
                accounts.as_str(),
                value.as_str(),
                self.module,
                set_return_data,
            )
        } else {
            let reader = emit_args_deser(&self.args, "__Args", false);
            let names = names_of(&self.args);
            let tuple = "(".to_owned().concat(
                terminate_strings(&reader.arg_types, ", ").as_str(),
            ).concat(")");
            fill11(
                WRAPPER_WITH_ARGS,
                self.cfg.as_str(),
                self.name,
                log.as_str(),
                tuple.as_str(),
                reader.deser.as_str(),
                terminate_strings(&names, ", ").as_str(),
                accounts.as_str(),
                value.as_str(),
                self.module,
                join_strings(&names, ", ").as_str(),
                set_return_data,
            )
        }
    }

    fn instruction_struct(&self, struct_name: &str) -> (out: String)
        ensures
            out@ == instruction_struct_text(self.parts(), struct_name@),
    {
        let (arg_types, has_refs) = args_meta(&self.args);
        let generic = if has_refs { "<'ix>" } else { "" };
        fill7(
            INSTRUCTION_STRUCT,
            self.cfg.as_str(),
            struct_name,
            generic,
            print_pub_fields(&self.args, &arg_types).as_str(),
            generic,
            print_byte_literals(&self.bytes()).as_str(),
            self.program_id,
        )
    }

    fn cpi_wrapper(&self, struct_name: &str) -> (out: String)
        requires
            self.valid(),
        ensures
            out@ == cpi_wrapper_text(self.parts(), struct_name@),
    {
        let (_, has_refs) = args_meta(&self.args);
        let lifetimes = if has_refs { "<'a, 'ix>" } else { "<'a>" };
        let generic = if has_refs { "<'ix>" } else { "" };
        let ret_ty = match self.value {
            Some(ty) => "-> anchor_lang::Result<Return<".to_owned().concat(
                print_type(ty).as_str(),
            ).concat(">>"),
            None => "-> anchor_lang::Result<()>".to_owned(),
        };
        let ret_value = if self.value.is_some() { CPI_RETURN } else { "Ok(())" };
        assert(ret_ty@ == cpi_return_type(self.parts().value));
        assert(self.accounts.leaf_ident.text@ == leaf(self.parts().accounts).text@);
        fill10(
            CPI_WRAPPER,
            self.cfg.as_str(),
            self.name,
            lifetimes,
            self.accounts.leaf_ident.text.as_str(),
            fields_of(&self.args).as_str(),
            ret_ty.as_str(),
            struct_name,
            terminate_strings(&names_of(&self.args), ", ").as_str(),
            generic,
            ret_value,
        )
    }

    fn codegen(&self, idl: &HandlerIdl, disc: &str) -> (out: Result<HandlerCodegen, Failure>)
        requires
            self.valid(),
        ensures
            codegen_view(out) == accepted_code(self.parts(), *idl, disc@),
    {
        let accounts_name = self.accounts.leaf_ident.text.as_str();
        let struct_name = match new_ident(to_camel_case(self.name)) {
            Ok(name) => name,
            Err(failure) => return Err(failure),
        };
        let client_mod = match self.accounts.helper_module_path("__client_accounts_", 1) {
            Ok(path) => path,
            Err(failure) => return Err(failure),
        };
        let resolved = match new_ident(accounts_name.to_owned().concat("Resolved")) {
            Ok(name) => name,
            Err(failure) => return Err(failure),
        };
        let cpi_mod = match self.accounts.helper_module_path("__cpi_accounts_", 2) {
            Ok(path) => path,
            Err(failure) => return Err(failure),
        };
        let arg_types = map_texts(
            &self.args,
            |arg: &Argument| -> (s: String)
                ensures
                    s@ == type_text(*arg.ty, None)
                { print_type(arg.ty) },
            Ghost(|arg: Argument| type_text(*arg.ty, None)),
        );
        let return_type = match self.value {
            Some(ty) => Some(print_type(ty)),
            None => None,
        };
        let idl_returns_json = if self.value.is_some() {
            fill1(RETURNS_JSON, idl.returns.as_str())
        } else {
            "\"\"".to_owned()
        };
        let idl_docs_json = match &idl.docs {
            Some(docs) => ",\"docs\":".to_owned().concat(docs.as_str()),
            None => "".to_owned(),
        };
        Ok(
            HandlerCodegen {
                error: None,
                dispatch_arm: print_dispatch(self.cfg.as_str(), self.name, &self.bytes()),
                wrapper: self.wrapper(),
                instruction_struct: self.instruction_struct(struct_name.as_str()),
                accounts_reexport: fill3(
                    ACCOUNTS_REEXPORT,
                    client_mod.as_str(),
                    accounts_name,
                    resolved.as_str(),
                ),
                cpi_wrapper: self.cpi_wrapper(struct_name.as_str()),
                cpi_accounts_reexport: fill2(
                    CPI_ACCOUNTS_REEXPORT,
                    cpi_mod.as_str(),
                    accounts_name,
                ),
                accounts_type_name: print_path(self.accounts.path),
                idl_name: self.name.to_owned(),
                idl_disc: disc.to_owned(),
                idl_args: idl.args.clone(),
                idl_returns_json,
                idl_docs_json,
                idl_accounts_type: print_path(self.accounts.path),
                arg_types,
                return_type,
            },
        )
    }
}

/// The bytes or their absence, as a sequence.
pub open spec fn given_bytes(discrim: Option<Vec<u8>>) -> Option<Seq<u8>> {
    match discrim {
        Some(bytes) => Some(bytes@),
        None => None,
    }
}

fn refuse(handler: &HandlerFn, failure: Failure) -> (out: Result<HandlerCodegen, Failure>)
    ensures
        codegen_view(out) == (match failure@ {
            FailureView::Diagnostic { span, message } => Ok::<HandlerCodeView, FailureView>(
                refused_code(handler.ident.text@, span, message),
            ),
            other => Err(other),
        }),
{
    match failure {
        Failure::Diagnostic { span, message } => Ok(
            HandlerCodegen::error(handler.ident.text.as_str(), span, message),
        ),
        other => Err(other),
    }
}

/// The bytes that the instruction data of a handler begins with.
pub fn find_discriminator(name: &str, discrim: &Option<Vec<u8>>) -> (bytes: Vec<u8>)
    ensures
        bytes@ == discriminator_bytes(name@, given_bytes(*discrim)),
{
    match discrim {
        Some(bytes) => copy_bytes(bytes),
        None => default_instruction_discriminator(name),
    }
}

/// Generates what belongs to a handler. A handler that is refused gives code that
/// reports why. `disc_json` writes a discriminator as JSON: it is given the bytes that
/// the code holds.
pub fn process_handler<W: Fn(&Vec<u8>) -> String>(
    handler: &HandlerFn,
    mod_name: &str,
    discrim_bytes: &Option<Vec<u8>>,
    program_id: &str,
    idl: &HandlerIdl,
    disc_json: &W,
) -> (out: Result<HandlerCodegen, Failure>)
    requires
        writes_any(*disc_json),
    ensures
        exists|disc: Seq<char>|
            #![trigger may_write(
                *disc_json,
                discriminator_bytes(handler.ident.text@, given_bytes(*discrim_bytes)),
                disc,
            )]
            may_write(
                *disc_json,
                discriminator_bytes(handler.ident.text@, given_bytes(*discrim_bytes)),
                disc,
            ) && codegen_view(out) == handler_code(
                *handler,
                mod_name@,
                given_bytes(*discrim_bytes),
                program_id@,
                *idl,
                disc,
            ),
{
    let bytes = find_discriminator(handler.ident.text.as_str(), discrim_bytes);
    let disc = write_disc(disc_json, &bytes);
    described_handler(handler, mod_name, discrim_bytes, program_id, idl, disc.as_str())
}

/// Generates what belongs to a handler, given its discriminator as JSON.
pub fn described_handler(
    handler: &HandlerFn,
    mod_name: &str,
    discrim_bytes: &Option<Vec<u8>>,
    program_id: &str,
    idl: &HandlerIdl,
    disc: &str,
) -> (out: Result<HandlerCodegen, Failure>)
    ensures
        codegen_view(out) == handler_code(
            *handler,
            mod_name@,
            given_bytes(*discrim_bytes),
            program_id@,
            *idl,
            disc@,
        ),
{
    let value = match extract_result_return_type(&handler.output) {
        Ok(value) => value,
        Err(failure) => return refuse(handler, failure),
    };
    if handler.inputs.len() == 0 {
        return refuse(handler, new_diagnostic(handler.ident.span, NO_CONTEXT.to_owned()));
    }
    let accounts = match extract_context_accounts_path(&handler.inputs[0]) {
        Ok(accounts) => accounts,
        Err(failure) => return refuse(handler, failure),
    };
    let pieces = Pieces {
        cfg: cfg_attrs(&handler.attrs),
        name: handler.ident.text.as_str(),
        module: mod_name,
        accounts,
        args: find_args(handler),
        value,
        discrim: discrim_bytes,
        program_id,
    };
    pieces.codegen(idl, disc)
}

} // verus!
