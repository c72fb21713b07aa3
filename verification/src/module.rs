//! Descriptions of native modules.
//!
//! A module lists what native code offers to scripts under one path: types
//! with their documentation, the variants of the types that are enums, with
//! their fields, constructors and documentation, the protocols a type
//! implements, and free functions. Every name can be taken once; registering
//! it again is a conflict. What stands behind a name is a handler of a type
//! that the module's author chooses.

use vstd::prelude::*;
use crate::shared::text::str_eq;

verus! {

/// An operation that the runtime performs through a function a type
/// provides under a reserved name.
#[derive(Clone, Copy, Debug, PartialEq, Eq, Structural)]
pub enum Protocol {
    /// The check behind `==` for types that need not equal themselves.
    PartialEq,
    /// The check behind `==` for types whose equality is total.
    Eq,
}

/// An error raised when building a module.
#[derive(Debug)]
pub enum ContextError {
    /// Raised when we try to register a type that is present already.
    ConflictingType {
        /// The name we tried to register.
        name: String,
    },
    /// Raised when we try to make an enum of a type that is not registered.
    MissingType {
        /// The name of the type.
        name: String,
    },
    /// Raised when we try to make an enum of a type that is one already.
    ConflictingEnum {
        /// The name of the type.
        name: String,
    },
    /// Raised when we try to register a variant of a type that is not
    /// registered as an enum.
    MissingEnum {
        /// The name of the type.
        ty: String,
    },
    /// Raised when we try to register a variant that is present already.
    ConflictingVariant {
        /// The enum the variant belongs to.
        ty: String,
        /// The name we tried to register.
        name: String,
    },
    /// Raised when we try to register a protocol that the type has already.
    ConflictingInstanceFunction {
        /// The type we register the function for.
        ty: String,
        /// The protocol we tried to register.
        protocol: Protocol,
    },
    /// Raised when we try to register a function that is present already.
    ConflictingFunctionName {
        /// The name we tried to register.
        name: String,
    },
}

/// What a [`ContextError`] says, with the text of each name.
pub enum Conflict {
    /// A type of this name was present.
    Type(Seq<char>),
    /// No type of this name was present.
    MissingType(Seq<char>),
    /// The type of this name was an enum already.
    Enum(Seq<char>),
    /// The type of this name was not registered as an enum.
    MissingEnum(Seq<char>),
    /// The type had a variant of this name.
    Variant(Seq<char>, Seq<char>),
    /// The type had a function for this protocol.
    InstanceFunction(Seq<char>, Protocol),
    /// A function of this name was present.
    FunctionName(Seq<char>),
}

impl View for ContextError {
    type V = Conflict;

    open spec fn view(&self) -> Conflict {
        match self {
            ContextError::ConflictingType { name } => Conflict::Type(name@),
            ContextError::MissingType { name } => Conflict::MissingType(name@),
            ContextError::ConflictingEnum { name } => Conflict::Enum(name@),
            ContextError::MissingEnum { ty } => Conflict::MissingEnum(ty@),
            ContextError::ConflictingVariant { ty, name } => Conflict::Variant(ty@, name@),
            ContextError::ConflictingInstanceFunction { ty, protocol } => Conflict::InstanceFunction(
                ty@,
                *protocol,
            ),
            ContextError::ConflictingFunctionName { name } => Conflict::FunctionName(name@),
        }
    }
}

/// The fields of a variant.
#[derive(Clone, Copy, Debug, PartialEq, Eq, Structural)]
pub enum Fields {
    /// The variant has no fields.
    Empty,
    /// The variant has this many fields without names.
    Unnamed(usize),
}

/// A registered type.
#[derive(Debug)]
pub struct Type {
    /// The name of the type.
    pub name: String,
    /// The lines of its documentation.
    pub docs: Vec<String>,
    /// Whether the type is an enum.
    pub is_enum: bool,
}

/// A variant of an enum type, with the handler that constructs it.
#[derive(Debug)]
pub struct Variant<H> {
    /// The enum the variant belongs to.
    pub ty: String,
    /// The name of the variant.
    pub name: String,
    /// The fields of the variant.
    pub fields: Fields,
    /// What constructs a value of the variant.
    pub constructor: H,
    /// The lines of its documentation.
    pub docs: Vec<String>,
}

/// A function that a type provides for a protocol.
#[derive(Debug)]
pub struct InstanceFunction<H> {
    /// The type that provides the function.
    pub ty: String,
    /// The protocol the function serves.
    pub protocol: Protocol,
    /// What runs when the protocol is used.
    pub handler: H,
}

/// A free function.
#[derive(Debug)]
pub struct Function<H> {
    /// The name of the function inside the module.
    pub name: String,
    /// What runs when the function is called.
    pub handler: H,
    /// The lines of its documentation.
    pub docs: Vec<String>,
}

/// What a [`Type`] holds.
pub struct TypeView {
    /// The name of the type.
    pub name: Seq<char>,
    /// The lines of its documentation.
    pub docs: Seq<Seq<char>>,
    /// Whether the type is an enum.
    pub is_enum: bool,
}

/// What a [`Variant`] holds.
pub struct VariantView<H> {
    /// The enum the variant belongs to.
    pub ty: Seq<char>,
    /// The name of the variant.
    pub name: Seq<char>,
    /// The fields of the variant.
    pub fields: Fields,
    /// What constructs a value of the variant.
    pub constructor: H,
    /// The lines of its documentation.
    pub docs: Seq<Seq<char>>,
}

impl View for Type {
    type V = TypeView;

    open spec fn view(&self) -> TypeView {
        TypeView { name: self.name@, docs: texts(self.docs@), is_enum: self.is_enum }
    }
}

impl<H> View for Variant<H> {
    type V = VariantView<H>;

    open spec fn view(&self) -> VariantView<H> {
        VariantView {
            ty: self.ty@,
            name: self.name@,
            fields: self.fields,
            constructor: self.constructor,
            docs: texts(self.docs@),
        }
    }
}

impl<H> View for InstanceFunction<H> {
    type V = (Seq<char>, Protocol, H);

    open spec fn view(&self) -> (Seq<char>, Protocol, H) {
        (self.ty@, self.protocol, self.handler)
    }
}

/// What a [`Function`] holds.
pub struct FunctionView<H> {
    /// The name of the function inside the module.
    pub name: Seq<char>,
    /// What runs when the function is called.
    pub handler: H,
    /// The lines of its documentation.
    pub docs: Seq<Seq<char>>,
}

impl<H> View for Function<H> {
    type V = FunctionView<H>;

    open spec fn view(&self) -> FunctionView<H> {
        FunctionView { name: self.name@, handler: self.handler, docs: texts(self.docs@) }
    }
}

/// The content of a [`Module`]: each table in the order of registration.
pub struct ModuleView<H> {
    /// The crate the module belongs to.
    pub krate: Seq<char>,
    /// The path of the module inside its crate.
    pub path: Seq<Seq<char>>,
    /// The registered types.
    pub types: Seq<TypeView>,
    /// The registered variants.
    pub variants: Seq<VariantView<H>>,
    /// The registered protocol functions: type, protocol and handler.
    pub instance_functions: Seq<(Seq<char>, Protocol, H)>,
    /// The registered free functions.
    pub functions: Seq<FunctionView<H>>,
}

impl<H> ModuleView<H> {
    /// Whether a type of this name is registered.
    pub open spec fn has_type(self, name: Seq<char>) -> bool {
        exists|at: int| 0 <= at < self.types.len() && (#[trigger] self.types[at]).name == name
    }

    /// Whether the type at `at` is the first one registered under `name`.
    pub open spec fn is_type_at(self, name: Seq<char>, at: int) -> bool {
        first_named(self.types, name, at)
    }

    /// The position of the type registered under `name`.
    pub open spec fn type_at(self, name: Seq<char>) -> int {
        position_of(self.types, name)
    }

    /// Whether a type of this name is registered as an enum.
    pub open spec fn has_enum(self, name: Seq<char>) -> bool {
        self.has_type(name) && self.types[self.type_at(name)].is_enum
    }

    /// Whether the enum `ty` has a variant of this name.
    pub open spec fn has_variant(self, ty: Seq<char>, name: Seq<char>) -> bool {
        exists|at: int|
            0 <= at < self.variants.len() && (#[trigger] self.variants[at]).ty == ty
                && self.variants[at].name == name
    }

    /// Whether the type `ty` has a function for `protocol`.
    pub open spec fn has_instance_function(self, ty: Seq<char>, protocol: Protocol) -> bool {
        exists|at: int|
            0 <= at < self.instance_functions.len() && (#[trigger] self.instance_functions[at]).0
                == ty && self.instance_functions[at].1 == protocol
    }

    /// Whether a free function of this name is registered.
    pub open spec fn has_function(self, name: Seq<char>) -> bool {
        exists|at: int| 0 <= at < self.functions.len() && (#[trigger] self.functions[at]).name == name
    }

    /// Whether no name is taken twice.
    pub open spec fn conflict_free(self) -> bool {
        &&& forall|a: int, b: int|
            0 <= a < b < self.types.len() ==> self.types[a].name != self.types[b].name
        &&& forall|a: int, b: int|
            0 <= a < b < self.variants.len() ==> !(self.variants[a].ty == self.variants[b].ty
                && self.variants[a].name == self.variants[b].name)
        &&& forall|a: int, b: int|
            0 <= a < b < self.instance_functions.len() ==> !(self.instance_functions[a].0
                == self.instance_functions[b].0 && self.instance_functions[a].1
                == self.instance_functions[b].1)
        &&& forall|a: int, b: int|
            0 <= a < b < self.functions.len() ==> self.functions[a].name != self.functions[b].name
    }
}

/// Whether the type at `at` is the first one of `types` under `name`.
pub open spec fn first_named(types: Seq<TypeView>, name: Seq<char>, at: int) -> bool {
    &&& 0 <= at < types.len()
    &&& types[at].name == name
    &&& forall|before: int| 0 <= before < at ==> (#[trigger] types[before]).name != name
}

/// The position of the first type of `types` under `name`.
pub open spec fn position_of(types: Seq<TypeView>, name: Seq<char>) -> int {
    choose|at: int| first_named(types, name, at)
}

/// The characters of each string in turn.
pub open spec fn texts(strings: Seq<String>) -> Seq<Seq<char>> {
    strings.map_values(|text: String| text@)
}

/// The characters of each line in turn.
pub open spec fn lines_of(lines: Seq<&str>) -> Seq<Seq<char>> {
    lines.map_values(|line: &str| line@)
}

/// What each type holds, in turn.
pub open spec fn type_views(types: Seq<Type>) -> Seq<TypeView> {
    types.map_values(|ty: Type| ty@)
}

/// What each variant holds, in turn.
pub open spec fn variant_views<H>(variants: Seq<Variant<H>>) -> Seq<VariantView<H>> {
    variants.map_values(|variant: Variant<H>| variant@)
}

/// The first position at which a type of this name stands is the position
/// of the type.
pub proof fn lemma_type_at<H>(module: ModuleView<H>, name: Seq<char>, at: int)
    requires
        module.is_type_at(name, at),
    ensures
        module.has_type(name),
        module.type_at(name) == at,
{
    let chosen = module.type_at(name);
    assert(module.is_type_at(name, chosen));
    if chosen < at {
        assert(module.types[chosen].name != name);
    }
    if at < chosen {
        assert(module.types[at].name != name);
    }
}

/// Owned copies of the given lines.
fn owned_lines(lines: &[&str]) -> (owned: Vec<String>)
    ensures
        texts(owned@) == lines_of(lines@),
{
    let mut owned: Vec<String> = Vec::new();
    let mut at: usize = 0;
    while at < lines.len()
        invariant
            at <= lines.len(),
            owned.len() == at,
            forall|k: int| 0 <= k < at ==> owned[k]@ == lines[k]@,
        decreases lines.len() - at,
    {
        owned.push(lines[at].to_owned());
        at += 1;
    }
    assert(texts(owned@) =~= lines_of(lines@));
    owned
}

/// Each protocol function as type, protocol and handler.
pub open spec fn instance_function_views<H>(functions: Seq<InstanceFunction<H>>) -> Seq<
    (Seq<char>, Protocol, H),
> {
    functions.map_values(|function: InstanceFunction<H>| function@)
}

/// What each free function holds, in turn.
pub open spec fn function_views<H>(functions: Seq<Function<H>>) -> Seq<FunctionView<H>> {
    functions.map_values(|function: Function<H>| function@)
}

/// A collection of types and functions offered to scripts under one path.
#[derive(Debug)]
pub struct Module<H> {
    /// The crate the module belongs to.
    krate: String,
    /// The path of the module inside its crate.
    path: Vec<String>,
    /// Registered types.
    types: Vec<Type>,
    /// Registered variants.
    variants: Vec<Variant<H>>,
    /// Registered protocol functions.
    instance_functions: Vec<InstanceFunction<H>>,
    /// Registered free functions.
    functions: Vec<Function<H>>,
}

impl<H> View for Module<H> {
    type V = ModuleView<H>;

    closed spec fn view(&self) -> ModuleView<H> {
        ModuleView {
            krate: self.krate@,
            path: texts(self.path@),
            types: type_views(self.types@),
            variants: variant_views(self.variants@),
            instance_functions: instance_function_views(self.instance_functions@),
            functions: function_views(self.functions@),
        }
    }
}

impl<H> Module<H> {
    /// Construct a new, empty module at `path` inside the crate `krate`.
    pub fn with_crate_item(krate: &str, path: &[&str]) -> (module: Self)
        ensures
            module@ == (ModuleView::<H> {
                krate: krate@,
                path: lines_of(path@),
                types: Seq::empty(),
                variants: Seq::empty(),
                instance_functions: Seq::empty(),
                functions: Seq::empty(),
            }),
            module@.conflict_free(),
    {
        let module = Module {
            krate: krate.to_owned(),
            path: owned_lines(path),
            types: Vec::new(),
            variants: Vec::new(),
            instance_functions: Vec::new(),
            functions: Vec::new(),
        };
        assert(module@.types =~= Seq::empty());
        assert(module@.variants =~= Seq::empty());
        assert(module@.instance_functions =~= Seq::empty());
        assert(module@.functions =~= Seq::empty());
        module
    }

    /// The crate the module belongs to.
    pub fn krate(&self) -> (krate: &str)
        ensures
            krate@ == self@.krate,
    {
        self.krate.as_str()
    }

    /// The path of the module inside its crate.
    pub fn path(&self) -> (path: &Vec<String>)
        ensures
            texts(path@) == self@.path,
    {
        &self.path
    }

    /// The registered types, in the order of registration.
    pub fn types(&self) -> (types: &Vec<Type>)
        ensures
            type_views(types@) == self@.types,
    {
        &self.types
    }

    /// The registered variants, in the order of registration.
    pub fn variants(&self) -> (variants: &Vec<Variant<H>>)
        ensures
            variant_views(variants@) == self@.variants,
    {
        &self.variants
    }

    /// The registered protocol functions, in the order of registration.
    pub fn instance_functions(&self) -> (functions: &Vec<InstanceFunction<H>>)
        ensures
            instance_function_views(functions@) == self@.instance_functions,
    {
        &self.instance_functions
    }

    /// The registered free functions, in the order of registration.
    pub fn functions(&self) -> (functions: &Vec<Function<H>>)
        ensures
            function_views(functions@) == self@.functions,
    {
        &self.functions
    }

    /// The position of the type registered under `name`.
    fn find_type(&self, name: &str) -> (found: Option<usize>)
        ensures
            match found {
                Some(at) => self@.is_type_at(name@, at as int) && self@.has_type(name@)
                    && self@.type_at(name@) == at,
                None => !self@.has_type(name@),
            },
    {
        let mut at: usize = 0;
        while at < self.types.len()
            invariant
                at <= self.types.len(),
                forall|k: int| 0 <= k < at ==> (#[trigger] self@.types[k]).name != name@,
            decreases self.types.len() - at,
        {
            if str_eq(self.types[at].name.as_str(), name) {
                proof {
                    assert(self@.types[at as int].name == name@);
                    lemma_type_at(self@, name@, at as int);
                }
                return Some(at);
            }
            at += 1;
        }
        None
    }

    /// Register a type under `name`, with the lines of its documentation.
    /// The type is no enum until [`Module::make_enum`] makes it one.
    pub fn ty(&mut self, name: &str, docs: &[&str]) -> (result: Result<(), ContextError>)
        ensures
            match result {
                Ok(_) => {
                    &&& !old(self)@.has_type(name@)
                    &&& final(self)@ == (ModuleView {
                        types: old(self)@.types.push(
                            TypeView { name: name@, docs: lines_of(docs@), is_enum: false },
                        ),
                        ..old(self)@
                    })
                },
                Err(error) => {
                    &&& old(self)@.has_type(name@)
                    &&& final(self)@ == old(self)@
                    &&& error@ == Conflict::Type(name@)
                },
            },
            old(self)@.conflict_free() ==> final(self)@.conflict_free(),
    {
        if self.find_type(name).is_some() {
            return Err(ContextError::ConflictingType { name: name.to_owned() });
        }
        self.types.push(Type { name: name.to_owned(), docs: owned_lines(docs), is_enum: false });
        assert(self@.types =~= old(self)@.types.push(
            TypeView { name: name@, docs: lines_of(docs@), is_enum: false },
        ));
        Ok(())
    }

    /// Make the type registered under `ty` an enum, whose variants are then
    /// registered one by one with [`Module::variant`].
    pub fn make_enum(&mut self, ty: &str) -> (result: Result<(), ContextError>)
        ensures
            match result {
                Ok(_) => {
                    &&& old(self)@.has_type(ty@)
                    &&& !old(self)@.has_enum(ty@)
                    &&& final(self)@ == (ModuleView {
                        types: old(self)@.types.update(
                            old(self)@.type_at(ty@),
                            TypeView { is_enum: true, ..old(self)@.types[old(self)@.type_at(ty@)] },
                        ),
                        ..old(self)@
                    })
                },
                Err(error) => {
                    &&& final(self)@ == old(self)@
                    &&& error@ == if old(self)@.has_type(ty@) {
                        Conflict::Enum(ty@)
                    } else {
                        Conflict::MissingType(ty@)
                    }
                    &&& old(self)@.has_type(ty@) ==> old(self)@.has_enum(ty@)
                },
            },
            old(self)@.conflict_free() ==> final(self)@.conflict_free(),
    {
        match self.find_type(ty) {
            None => Err(ContextError::MissingType { name: ty.to_owned() }),
            Some(at) => {
                if self.types[at].is_enum {
                    return Err(ContextError::ConflictingEnum { name: ty.to_owned() });
                }
                self.types[at].is_enum = true;
                assert(self@.types =~= old(self)@.types.update(
                    at as int,
                    TypeView { is_enum: true, ..old(self)@.types[at as int] },
                ));
                Ok(())
            },
        }
    }

    /// Register the variant `name` of the enum `ty`, with its fields, the
    /// handler that constructs it and the lines of its documentation.
    pub fn variant(
        &mut self,
        ty: &str,
        name: &str,
        fields: Fields,
        constructor: H,
        docs: &[&str],
    ) -> (result: Result<(), ContextError>)
        ensures
            match result {
                Ok(_) => {
                    &&& old(self)@.has_enum(ty@)
                    &&& !old(self)@.has_variant(ty@, name@)
                    &&& final(self)@ == (ModuleView {
                        variants: old(self)@.variants.push(
                            VariantView {
                                ty: ty@,
                                name: name@,
                                fields,
                                constructor,
                                docs: lines_of(docs@),
                            },
                        ),
                        ..old(self)@
                    })
                },
                Err(error) => {
                    &&& final(self)@ == old(self)@
                    &&& error@ == if old(self)@.has_enum(ty@) {
                        Conflict::Variant(ty@, name@)
                    } else {
                        Conflict::MissingEnum(ty@)
                    }
                    &&& old(self)@.has_enum(ty@) ==> old(self)@.has_variant(ty@, name@)
                },
            },
            old(self)@.conflict_free() ==> final(self)@.conflict_free(),
    {
        let is_enum = match self.find_type(ty) {
            Some(at) => self.types[at].is_enum,
            None => false,
        };
        assert(is_enum == self@.has_enum(ty@));
        if !is_enum {
            return Err(ContextError::MissingEnum { ty: ty.to_owned() });
        }
        let mut at: usize = 0;
        while at < self.variants.len()
            invariant
                at <= self.variants.len(),
                self@.has_enum(ty@),
                forall|k: int|
                    0 <= k < at ==> !((#[trigger] self@.variants[k]).ty == ty@
                        && self@.variants[k].name == name@),
            decreases self.variants.len() - at,
        {
            if str_eq(self.variants[at].ty.as_str(), ty) && str_eq(
                self.variants[at].name.as_str(),
                name,
            ) {
                assert(self@.variants[at as int].ty == ty@ && self@.variants[at as int].name
                    == name@);
                assert(self@.has_variant(ty@, name@));
                assert(self@.has_enum(ty@));
                return Err(
                    ContextError::ConflictingVariant { ty: ty.to_owned(), name: name.to_owned() },
                );
            }
            at += 1;
        }
        self.variants.push(
            Variant {
                ty: ty.to_owned(),
                name: name.to_owned(),
                fields,
                constructor,
                docs: owned_lines(docs),
            },
        );
        assert(self@.variants =~= old(self)@.variants.push(
            VariantView { ty: ty@, name: name@, fields, constructor, docs: lines_of(docs@) },
        ));
        Ok(())
    }

    /// Register `handler` as what the type `ty` does for `protocol`.
    pub fn associated_function(&mut self, ty: &str, protocol: Protocol, handler: H) -> (result:
        Result<(), ContextError>)
        ensures
            match result {
                Ok(_) => {
                    &&& !old(self)@.has_instance_function(ty@, protocol)
                    &&& final(self)@ == (ModuleView {
                        instance_functions: old(self)@.instance_functions.push(
                            (ty@, protocol, handler),
                        ),
                        ..old(self)@
                    })
                },
                Err(error) => {
                    &&& old(self)@.has_instance_function(ty@, protocol)
                    &&& final(self)@ == old(self)@
                    &&& error@ == Conflict::InstanceFunction(ty@, protocol)
                },
            },
            old(self)@.conflict_free() ==> final(self)@.conflict_free(),
    {
        let mut at: usize = 0;
        while at < self.instance_functions.len()
            invariant
                at <= self.instance_functions.len(),
                forall|k: int|
                    0 <= k < at ==> !(self@.instance_functions[k].0 == ty@
                        && self@.instance_functions[k].1 == protocol),
            decreases self.instance_functions.len() - at,
        {
            if self.instance_functions[at].protocol == protocol && str_eq(
                self.instance_functions[at].ty.as_str(),
                ty,
            ) {
                assert(self@.instance_functions[at as int].0 == ty@
                    && self@.instance_functions[at as int].1 == protocol);
                return Err(ContextError::ConflictingInstanceFunction { ty: ty.to_owned(), protocol });
            }
            at += 1;
        }
        self.instance_functions.push(InstanceFunction { ty: ty.to_owned(), protocol, handler });
        assert(self@.instance_functions =~= old(self)@.instance_functions.push(
            (ty@, protocol, handler),
        ));
        Ok(())
    }

    /// Register the free function `name`, run by `handler`, with the lines
    /// of its documentation.
    pub fn function(&mut self, name: &str, handler: H, docs: &[&str]) -> (result: Result<
        (),
        ContextError,
    >)
        ensures
            match result {
                Ok(_) => {
                    &&& !old(self)@.has_function(name@)
                    &&& final(self)@ == (ModuleView {
                        functions: old(self)@.functions.push(
                            FunctionView { name: name@, handler, docs: lines_of(docs@) },
                        ),
                        ..old(self)@
                    })
                },
                Err(error) => {
                    &&& old(self)@.has_function(name@)
                    &&& final(self)@ == old(self)@
                    &&& error@ == Conflict::FunctionName(name@)
                },
            },
            old(self)@.conflict_free() ==> final(self)@.conflict_free(),
    {
        let mut at: usize = 0;
        while at < self.functions.len()
            invariant
                at <= self.functions.len(),
                forall|k: int| 0 <= k < at ==> (#[trigger] self@.functions[k]).name != name@,
            decreases self.functions.len() - at,
        {
            if str_eq(self.functions[at].name.as_str(), name) {
                assert(self@.functions[at as int].name == name@);
                return Err(ContextError::ConflictingFunctionName { name: name.to_owned() });
            }
            at += 1;
        }
        self.functions.push(Function { name: name.to_owned(), handler, docs: owned_lines(docs) });
        assert(self@.functions =~= old(self)@.functions.push(
            FunctionView { name: name@, handler, docs: lines_of(docs@) },
        ));
        Ok(())
    }
}

} // verus!
