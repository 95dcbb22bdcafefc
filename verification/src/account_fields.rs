//! The fields of an accounts struct, and which of their addresses a client can
//! derive.

use crate::cpi_accounts::last_segment;
use crate::failure::{Failure, FailureView};
use crate::handler::{byte_literals, print_byte_literals};
use crate::names::{item_name, new_ident};
use crate::syntax::{print_type, type_text, GenericArgument, Ident, PathArguments, Type};
use crate::template::{fill4, filled};
use crate::text::{contains_text, join_strings, joined, option_text, same_text, texts};
use vstd::prelude::*;

verus! {

/// A field of an accounts struct. The code that loads and checks it is given as
/// text.
pub struct AccountField {
    pub name: Ident,
    /// The accounts struct that the field nests.
    pub nested_inner: Option<Type>,
    /// The type of the field, without an `Option` round it, and the name of that type.
    pub base: Type,
    pub base_name: String,
    pub load: String,
    pub deferred_load: Option<String>,
    pub constraints: Vec<String>,
    pub update: Option<String>,
    pub exit: Option<String>,
    /// The variable that holds the bump while the accounts are loaded.
    pub bump_cache: String,
    pub has_bump: bool,
    pub is_optional: bool,
    pub contributes_mut_bit: bool,
    pub contributes_active_mut_bit: bool,
    pub idl_writable: bool,
    pub idl_init_signer: bool,
    pub idl_has_one: Vec<String>,
    pub idl_address_v1_source: Option<String>,
    pub idl_field_ty: Option<Type>,
    pub seeds: Seeds,
    pub seeds_program: Option<SeedsProgram>,
}

/// The seeds that the address of a field is derived from.
pub enum Seeds {
    /// None are given.
    Absent,
    /// An expression that gives all seeds at once.
    Opaque,
    /// An array of seeds.
    Array(Vec<Seed>),
}

/// A seed: the bytes that it is, where they are known, and the name that the
/// expression begins with, where it begins with one.
pub struct Seed {
    pub bytes: Option<Vec<u8>>,
    pub root: Option<String>,
}

/// The program that an address is derived for: the expression, the name that it
/// begins with, where it begins with one, and whether it calls a macro or refers to a
/// field or an argument.
pub struct SeedsProgram {
    pub tokens: String,
    pub root: Option<String>,
    pub has_macro: bool,
    pub references_local: bool,
}

/// The names that seeds can refer to, and the program of the accounts.
pub struct Scope {
    pub fields: Vec<String>,
    pub args: Vec<String>,
    pub program_id: String,
}

/// The names that seeds can refer to and the program of the accounts, as sequences of
/// characters.
pub struct ScopeView {
    pub fields: Seq<Seq<char>>,
    pub args: Seq<Seq<char>>,
    pub program_id: Seq<char>,
}

impl View for Scope {
    type V = ScopeView;

    open spec fn view(&self) -> ScopeView {
        ScopeView {
            fields: texts(self.fields@),
            args: texts(self.args@),
            program_id: self.program_id@,
        }
    }
}

/// Whether a nested accounts struct is named by a path.
pub open spec fn nested_is_path(field: AccountField) -> bool {
    field.nested_inner matches Some(inner) ==> (inner matches Type::Path(path)
        && path.path.segments@.len() > 0)
}

// ---------------------------------------------------------------------------
// What a client must give
// ---------------------------------------------------------------------------

/// How a client gets the address of a field.
pub enum FieldKind {
    /// The client gives it.
    Required,
    /// It is the id of a program, given by an expression.
    Program(String),
    /// It is derived from seeds for a program, once the addresses in `deps` are known.
    Pda { seed_exprs: Vec<String>, program_ref: String, deps: Vec<String> },
}

/// How a client gets the address of a field, as sequences of characters.
pub enum FieldKindView {
    Required,
    Program(Seq<char>),
    Pda { seed_exprs: Seq<Seq<char>>, program_ref: Seq<char>, deps: Seq<Seq<char>> },
}

impl View for FieldKind {
    type V = FieldKindView;

    open spec fn view(&self) -> FieldKindView {
        match self {
            FieldKind::Required => FieldKindView::Required,
            FieldKind::Program(expr) => FieldKindView::Program(expr@),
            FieldKind::Pda { seed_exprs, program_ref, deps } => FieldKindView::Pda {
                seed_exprs: texts(seed_exprs@),
                program_ref: program_ref@,
                deps: texts(deps@),
            },
        }
    }
}

/// The first argument of the last segment of a path, where it is a type.
pub open spec fn first_type_argument(ty: Type) -> Option<Type> {
    match last_segment(ty) {
        Some(segment) => match segment.arguments {
            PathArguments::AngleBracketed(angle) => if angle.args@.len() > 0 {
                match angle.args@[0] {
                    GenericArgument::Type(inner) => Some(inner),
                    _ => None,
                }
            } else {
                None
            },
            _ => None,
        },
        None => None,
    }
}

fn find_first_type_argument(ty: &Type) -> (out: Option<&Type>)
    ensures
        crate::cpi_accounts::found(out) == first_type_argument(*ty),
{
    match ty {
        Type::Path(path) => {
            let segments = &path.path.segments;
            if segments.len() == 0 {
                return None;
            }
            match &segments[segments.len() - 1].arguments {
                PathArguments::AngleBracketed(angle) => if angle.args.len() > 0 {
                    match &angle.args[0] {
                        GenericArgument::Type(inner) => Some(inner),
                        _ => None,
                    }
                } else {
                    None
                },
                _ => None,
            }
        },
        _ => None,
    }
}

/// Whether a name that may be absent is among the given ones.
pub open spec fn is_among(name: Option<String>, names: Seq<Seq<char>>) -> bool {
    name matches Some(text) && names.contains(text@)
}

fn among(name: &Option<String>, names: &Vec<String>) -> (out: bool)
    ensures
        out == is_among(*name, texts(names@)),
{
    match name {
        Some(text) => contains_text(names, text.as_str()),
        None => false,
    }
}

/// The expression for a seed that a client can work out: bytes, or the address of a
/// field.
pub open spec fn client_seed(seed: Seed, scope: ScopeView) -> Option<Seq<char>> {
    match seed.bytes {
        Some(bytes) => Some("&["@ + byte_literals(bytes@) + "] as &[u8]"@),
        None => if is_among(seed.root, scope.fields) {
            Some(seed.root->Some_0@ + ".as_ref()"@)
        } else {
            None
        },
    }
}

/// The expressions for the seeds and the fields that they need, where a client can
/// work out all of them.
pub open spec fn client_seeds(seeds: Seq<Seed>, scope: ScopeView) -> Option<
    (Seq<Seq<char>>, Seq<Seq<char>>),
>
    decreases seeds.len(),
{
    if seeds.len() == 0 {
        Some((Seq::empty(), Seq::empty()))
    } else {
        match client_seeds(seeds.drop_last(), scope) {
            None => None,
            Some((exprs, deps)) => match client_seed(seeds.last(), scope) {
                None => None,
                Some(expr) => Some(
                    (
                        exprs.push(expr),
                        if seeds.last().bytes is Some {
                            deps
                        } else {
                            deps.push(seeds.last().root->Some_0@)
                        },
                    ),
                ),
            },
        }
    }
}

/// The expression for the program that an address is derived for, and the field that
/// it needs, where a client can work it out.
pub open spec fn client_program(program: Option<SeedsProgram>, scope: ScopeView) -> Option<
    (Seq<char>, Option<Seq<char>>),
> {
    match program {
        None => Some(("&"@ + scope.program_id, None)),
        Some(program) => if is_among(program.root, scope.fields) {
            Some(("&"@ + program.root->Some_0@, Some(program.root->Some_0@)))
        } else if is_among(program.root, scope.args) {
            None
        } else if program.root is None && (program.has_macro || program.references_local) {
            None
        } else {
            Some(("&"@ + program.tokens@, None))
        },
    }
}

/// How a client gets the address of a field. An optional field is always given, so
/// that it can be left out.
pub open spec fn kind_of_field(field: AccountField, scope: ScopeView) -> FieldKindView {
    if field.is_optional {
        FieldKindView::Required
    } else if field.base_name@ == "Program"@ && first_type_argument(field.base) is Some {
        FieldKindView::Program(
            "<"@ + type_text(first_type_argument(field.base)->Some_0, None)
                + " as anchor_lang::Id>::id()"@,
        )
    } else {
        match field.seeds {
            Seeds::Array(seeds) => match client_seeds(seeds@, scope) {
                None => FieldKindView::Required,
                Some((seed_exprs, deps)) => match client_program(field.seeds_program, scope) {
                    None => FieldKindView::Required,
                    Some((program_ref, dep)) => FieldKindView::Pda {
                        seed_exprs,
                        program_ref,
                        deps: match dep {
                            Some(name) => if deps.contains(name) {
                                deps
                            } else {
                                deps.push(name)
                            },
                            None => deps,
                        },
                    },
                },
            },
            _ => FieldKindView::Required,
        }
    }
}

fn copy_string(text: &Option<String>) -> (out: String)
    requires
        text is Some,
    ensures
        out@ == text->Some_0@,
{
    match text {
        Some(text) => text.clone(),
        None => String::new(),
    }
}

proof fn lemma_client_seeds_prefix(seeds: Seq<Seed>, scope: ScopeView, n: int)
    requires
        0 <= n <= seeds.len(),
        client_seeds(seeds.take(n), scope) is None,
    ensures
        client_seeds(seeds, scope) is None,
    decreases seeds.len(),
{
    if n == seeds.len() {
        assert(seeds.take(n) == seeds);
    } else {
        assert(seeds.drop_last().take(n) == seeds.take(n));
        lemma_client_seeds_prefix(seeds.drop_last(), scope, n);
    }
}

fn read_client_seeds(seeds: &Vec<Seed>, scope: &Scope) -> (out: Option<
    (Vec<String>, Vec<String>),
>)
    ensures
        (match out {
            Some((exprs, deps)) => Some((texts(exprs@), texts(deps@))),
            None => None,
        }) == client_seeds(seeds@, scope@),
{
    let mut exprs: Vec<String> = Vec::new();
    let mut deps: Vec<String> = Vec::new();
    assert(texts(exprs@) == Seq::<Seq<char>>::empty());
    assert(texts(deps@) == Seq::<Seq<char>>::empty());
    for i in 0..seeds.len()
        invariant
            client_seeds(seeds@.take(i as int), scope@) == Some((texts(exprs@), texts(deps@))),
    {
        assert(seeds@.take(i + 1).drop_last() == seeds@.take(i as int));
        let seed = &seeds[i];
        let ghost before = texts(exprs@);
        let ghost needed = texts(deps@);
        match &seed.bytes {
            Some(bytes) => {
                let expr = "&[".to_owned().concat(print_byte_literals(bytes).as_str()).concat(
                    "] as &[u8]",
                );
                exprs.push(expr);
                assert(texts(exprs@) == before.push(expr@));
            },
            None => {
                if !among(&seed.root, &scope.fields) {
                    proof {
                        lemma_client_seeds_prefix(seeds@, scope@, i + 1);
                    }
                    return None;
                }
                let root = copy_string(&seed.root);
                let expr = root.clone().concat(".as_ref()");
                exprs.push(expr);
                deps.push(root);
                assert(texts(exprs@) == before.push(expr@));
                assert(texts(deps@) == needed.push(root@));
            },
        }
    }
    assert(seeds@.take(seeds@.len() as int) == seeds@);
    Some((exprs, deps))
}

fn read_client_program(program: &Option<SeedsProgram>, scope: &Scope) -> (out: Option<
    (String, Option<String>),
>)
    ensures
        (match out {
            Some((program_ref, dep)) => Some((program_ref@, option_text(dep))),
            None => None,
        }) == client_program(*program, scope@),
{
    match program {
        None => Some(("&".to_owned().concat(scope.program_id.as_str()), None)),
        Some(program) => {
            if among(&program.root, &scope.fields) {
                let root = copy_string(&program.root);
                Some(("&".to_owned().concat(root.as_str()), Some(root)))
            } else if among(&program.root, &scope.args) {
                None
            } else if program.root.is_none() && (program.has_macro || program.references_local) {
                None
            } else {
                Some(("&".to_owned().concat(program.tokens.as_str()), None))
            }
        },
    }
}

/// How a client gets the address of a field.
pub fn classify_field(field: &AccountField, scope: &Scope) -> (kind: FieldKind)
    ensures
        kind@ == kind_of_field(*field, scope@),
        field.is_optional ==> kind@ == FieldKindView::Required,
{
    if field.is_optional {
        return FieldKind::Required;
    }
    if same_text(field.base_name.as_str(), "Program") {
        if let Some(inner) = find_first_type_argument(&field.base) {
            return FieldKind::Program(
                "<".to_owned().concat(print_type(inner).as_str()).concat(
                    " as anchor_lang::Id>::id()",
                ),
            );
        }
    }
    if let Seeds::Array(seeds) = &field.seeds {
        if let Some((seed_exprs, deps)) = read_client_seeds(seeds, scope) {
            if let Some((program_ref, dep)) = read_client_program(&field.seeds_program, scope) {
                let mut deps = deps;
                if let Some(name) = dep {
                    if !contains_text(&deps, name.as_str()) {
                        let ghost before = texts(deps@);
                        deps.push(name);
                        assert(texts(deps@) == before.push(name@));
                    }
                }
                return FieldKind::Pda { seed_exprs, program_ref, deps };
            }
        }
    }
    FieldKind::Required
}

// ---------------------------------------------------------------------------
// Functions that find an address
// ---------------------------------------------------------------------------

/// The parameters and seeds of a function that finds an address, and the names of
/// the parameters, as sequences of characters.
pub struct FinderView {
    pub params: Seq<Seq<char>>,
    pub names: Seq<Seq<char>>,
    pub exprs: Seq<Seq<char>>,
}

/// Adds a parameter, unless there is one of that name.
pub open spec fn with_param(finder: FinderView, name: Seq<char>, ty: Seq<char>) -> FinderView {
    if finder.names.contains(name) {
        finder
    } else {
        FinderView {
            params: finder.params.push(name + ": "@ + ty),
            names: finder.names.push(name),
            exprs: finder.exprs,
        }
    }
}

/// Adds a seed.
pub open spec fn with_seed(finder: FinderView, expr: Seq<char>) -> FinderView {
    FinderView { exprs: finder.exprs.push(expr), ..finder }
}

/// Adds a seed with the parameter that it needs, where it can be worked out.
pub open spec fn finder_seed(finder: FinderView, seed: Seed, scope: ScopeView) -> Option<FinderView> {
    if is_among(seed.root, scope.fields) {
        let root = seed.root->Some_0@;
        Some(with_seed(with_param(finder, root, "&anchor_lang::Address"@), root + ".as_ref()"@))
    } else if is_among(seed.root, scope.args) {
        let root = seed.root->Some_0@;
        Some(with_seed(with_param(finder, root, "&[u8]"@), root))
    } else {
        match seed.bytes {
            Some(bytes) => Some(with_seed(finder, "&["@ + byte_literals(bytes@) + "]"@)),
            None => None,
        }
    }
}

/// Adds all seeds, where each can be worked out.
pub open spec fn finder_seeds(seeds: Seq<Seed>, scope: ScopeView) -> Option<FinderView>
    decreases seeds.len(),
{
    if seeds.len() == 0 {
        Some(FinderView { params: Seq::empty(), names: Seq::empty(), exprs: Seq::empty() })
    } else {
        match finder_seeds(seeds.drop_last(), scope) {
            None => None,
            Some(finder) => finder_seed(finder, seeds.last(), scope),
        }
    }
}

/// The expression for the program, with the parameter that it needs.
pub open spec fn finder_program(
    finder: FinderView,
    program: Option<SeedsProgram>,
    scope: ScopeView,
) -> Option<(FinderView, Seq<char>)> {
    match program {
        None => Some((finder, "&"@ + scope.program_id)),
        Some(program) => if is_among(program.root, scope.fields) || is_among(
            program.root,
            scope.args,
        ) {
            let root = program.root->Some_0@;
            Some((with_param(finder, root, "&anchor_lang::Address"@), root))
        } else if program.root is None && (program.has_macro || program.references_local) {
            None
        } else {
            Some((finder, "&"@ + program.tokens@))
        },
    }
}

/// The function that finds an address.
pub const FINDER: &'static str = "pub fn @a(@b) -> (anchor_lang::Address, u8) {
    anchor_lang::find_program_address(
        &[@c],
        @d,
    )
}";

/// The function that finds the address of a field; nothing where that cannot be
/// worked out.
pub open spec fn finder_of(field: AccountField, scope: ScopeView) -> Result<
    Option<Seq<char>>,
    FailureView,
> {
    match field.seeds {
        Seeds::Array(seeds) => match item_name("find_"@ + field.name.text@ + "_address"@) {
            Err(failure) => Err(failure),
            Ok(name) => match finder_seeds(seeds@, scope) {
                None => Ok(None),
                Some(finder) => match finder_program(finder, field.seeds_program, scope) {
                    None => Ok(None),
                    Some((finder, program_ref)) => Ok(
                        Some(
                            filled(
                                FINDER@,
                                seq![
                                    name,
                                    joined(finder.params, ", "@),
                                    joined(finder.exprs, ", "@),
                                    program_ref,
                                ],
                            ),
                        ),
                    ),
                },
            },
        },
        _ => Ok(None),
    }
}

struct Finder {
    params: Vec<String>,
    names: Vec<String>,
    exprs: Vec<String>,
}

impl Finder {
    spec fn view(&self) -> FinderView {
        FinderView {
            params: texts(self.params@),
            names: texts(self.names@),
            exprs: texts(self.exprs@),
        }
    }

    fn add_param(&mut self, name: &str, ty: &str)
        ensures
            final(self).view() == with_param(old(self).view(), name@, ty@),
    {
        if !contains_text(&self.names, name) {
            let ghost before = self.view();
            let param = name.to_owned().concat(": ").concat(ty);
            self.params.push(param);
            self.names.push(name.to_owned());
            assert(texts(self.params@) == before.params.push(param@));
            assert(texts(self.names@) == before.names.push(name@));
        }
    }

    fn add_seed(&mut self, expr: String)
        ensures
            final(self).view() == with_seed(old(self).view(), expr@),
    {
        let ghost before = self.view();
        self.exprs.push(expr);
        assert(texts(self.exprs@) == before.exprs.push(expr@));
    }
}

proof fn lemma_finder_seeds_prefix(seeds: Seq<Seed>, scope: ScopeView, n: int)
    requires
        0 <= n <= seeds.len(),
        finder_seeds(seeds.take(n), scope) is None,
    ensures
        finder_seeds(seeds, scope) is None,
    decreases seeds.len(),
{
    if n == seeds.len() {
        assert(seeds.take(n) == seeds);
    } else {
        assert(seeds.drop_last().take(n) == seeds.take(n));
        lemma_finder_seeds_prefix(seeds.drop_last(), scope, n);
    }
}

fn read_finder_seeds(seeds: &Vec<Seed>, scope: &Scope) -> (out: Option<Finder>)
    ensures
        (match out {
            Some(finder) => Some(finder.view()),
            None => None,
        }) == finder_seeds(seeds@, scope@),
{
    let mut finder = Finder { params: Vec::new(), names: Vec::new(), exprs: Vec::new() };
    assert(finder.view() == (FinderView {
        params: Seq::empty(),
        names: Seq::empty(),
        exprs: Seq::empty(),
    })) by {
        assert(texts(finder.params@) == Seq::<Seq<char>>::empty());
        assert(texts(finder.names@) == Seq::<Seq<char>>::empty());
        assert(texts(finder.exprs@) == Seq::<Seq<char>>::empty());
    }
    for i in 0..seeds.len()
        invariant
            finder_seeds(seeds@.take(i as int), scope@) == Some(finder.view()),
    {
        assert(seeds@.take(i + 1).drop_last() == seeds@.take(i as int));
        let seed = &seeds[i];
        if among(&seed.root, &scope.fields) {
            let root = copy_string(&seed.root);
            finder.add_param(root.as_str(), "&anchor_lang::Address");
            finder.add_seed(root.concat(".as_ref()"));
        } else if among(&seed.root, &scope.args) {
            let root = copy_string(&seed.root);
            finder.add_param(root.as_str(), "&[u8]");
            finder.add_seed(root);
        } else {
            match &seed.bytes {
                Some(bytes) => {
                    finder.add_seed(
                        "&[".to_owned().concat(print_byte_literals(bytes).as_str()).concat("]"),
                    );
                },
                None => {
                    proof {
                        lemma_finder_seeds_prefix(seeds@, scope@, i + 1);
                    }
                    return None;
                },
            }
        }
    }
    assert(seeds@.take(seeds@.len() as int) == seeds@);
    Some(finder)
}

/// A text that may be absent, or the failure.
pub open spec fn finder_view(finder: Result<Option<String>, Failure>) -> Result<
    Option<Seq<char>>,
    FailureView,
> {
    match finder {
        Ok(text) => Ok(option_text(text)),
        Err(failure) => Err(failure@),
    }
}

/// Writes the function that finds the address of a field.
pub fn print_finder(field: &AccountField, scope: &Scope) -> (out: Result<Option<String>, Failure>)
    ensures
        finder_view(out) == finder_of(*field, scope@),
{
    let seeds = match &field.seeds {
        Seeds::Array(seeds) => seeds,
        _ => return Ok(None),
    };
    let name = match new_ident(
        "find_".to_owned().concat(field.name.text.as_str()).concat("_address"),
    ) {
        Ok(name) => name,
        Err(failure) => return Err(failure),
    };
    let mut finder = match read_finder_seeds(seeds, scope) {
        Some(finder) => finder,
        None => return Ok(None),
    };
    let program_ref = match &field.seeds_program {
        None => "&".to_owned().concat(scope.program_id.as_str()),
        Some(program) => {
            if among(&program.root, &scope.fields) || among(&program.root, &scope.args) {
                let root = copy_string(&program.root);
                finder.add_param(root.as_str(), "&anchor_lang::Address");
                root
            } else if program.root.is_none() && (program.has_macro || program.references_local) {
                return Ok(None);
            } else {
                "&".to_owned().concat(program.tokens.as_str())
            }
        },
    };
    Ok(
        Some(
            fill4(
                FINDER,
                name.as_str(),
                join_strings(&finder.params, ", ").as_str(),
                join_strings(&finder.exprs, ", ").as_str(),
                program_ref.as_str(),
            ),
        ),
    )
}

// ---------------------------------------------------------------------------
// Laws
// ---------------------------------------------------------------------------

proof fn lemma_seeds_need_fields(seeds: Seq<Seed>, scope: ScopeView, i: int)
    requires
        client_seeds(seeds, scope) is Some,
        0 <= i < client_seeds(seeds, scope)->Some_0.1.len(),
    ensures
        scope.fields.contains(client_seeds(seeds, scope)->Some_0.1[i]),
    decreases seeds.len(),
{
    let deps = client_seeds(seeds.drop_last(), scope)->Some_0.1;
    if i < deps.len() {
        lemma_seeds_need_fields(seeds.drop_last(), scope, i);
    }
}

/// An address is derived from the addresses of fields of the same struct and nothing
/// else that a client has to give.
pub proof fn lemma_derived_from_fields(field: AccountField, scope: ScopeView, i: int)
    requires
        kind_of_field(field, scope) is Pda,
        0 <= i < kind_of_field(field, scope)->Pda_deps.len(),
    ensures
        scope.fields.contains(kind_of_field(field, scope)->Pda_deps[i]),
{
    let seeds = field.seeds->Array_0@;
    let deps = client_seeds(seeds, scope)->Some_0.1;
    if i < deps.len() {
        lemma_seeds_need_fields(seeds, scope, i);
    }
}

} // verus!
