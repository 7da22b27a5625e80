//! The generated API surface as plain data.
//!
//! The generator does not render source text; it emits one declaration
//! record per generated type, which a renderer turns into code. Field and
//! variant order, names, and the two parallel representations are all
//! explicit here, so the contracts can speak about them directly.

use vstd::prelude::*;

verus! {

/// A reference to a type inside a generated declaration.
///
/// Role references name one of the generated type roles; whether the
/// rendered reference carries the external lifetime follows from the
/// declaration that holds it (lightweight declarations only ever reference
/// lightweight types).
pub enum TyRef {
    /// A concrete schema value type, by its source text.
    Value(String),
    /// A borrow of a concrete value type, bound to the external lifetime.
    BorrowedValue(String),
    /// A role type generated in the same namespace.
    SelfRole(String),
    /// A role type generated in the parent namespace.
    SuperRole(String),
    /// The root schema marker type.
    SchemaMarker(String),
    /// An optional role type generated in the same namespace.
    OptionalSelfRole(String),
    /// A role type generated in a child namespace.
    ChildRole { child: String, role: String },
    /// A zero-sized marker that only pins the external lifetime.
    PhantomLifetime,
}

/// The mathematical value of a [`TyRef`].
#[verifier::ext_equal]
pub enum TyView {
    Value(Seq<char>),
    BorrowedValue(Seq<char>),
    SelfRole(Seq<char>),
    SuperRole(Seq<char>),
    SchemaMarker(Seq<char>),
    OptionalSelfRole(Seq<char>),
    ChildRole { child: Seq<char>, role: Seq<char> },
    PhantomLifetime,
}

impl View for TyRef {
    type V = TyView;

    open spec fn view(&self) -> TyView {
        match self {
            TyRef::Value(t) => TyView::Value(t@),
            TyRef::BorrowedValue(t) => TyView::BorrowedValue(t@),
            TyRef::SelfRole(t) => TyView::SelfRole(t@),
            TyRef::SuperRole(t) => TyView::SuperRole(t@),
            TyRef::SchemaMarker(t) => TyView::SchemaMarker(t@),
            TyRef::OptionalSelfRole(t) => TyView::OptionalSelfRole(t@),
            TyRef::ChildRole { child, role } => TyView::ChildRole { child: child@, role: role@ },
            TyRef::PhantomLifetime => TyView::PhantomLifetime,
        }
    }
}

/// The argument-binding decoration on one field, present only when the
/// extension is enabled.
#[derive(Clone, Copy, Debug, PartialEq, Eq, Structural)]
pub enum FieldDeco {
    Plain,
    ClapLong,
    ClapFlatten,
    ClapSubcommand,
}

/// One field of a generated struct.
pub struct Field {
    pub name: String,
    pub ty: TyRef,
    pub deco: FieldDeco,
}

/// The mathematical value of a [`Field`].
#[verifier::ext_equal]
pub struct FieldView {
    pub name: Seq<char>,
    pub ty: TyView,
    pub deco: FieldDeco,
}

impl View for Field {
    type V = FieldView;

    open spec fn view(&self) -> FieldView {
        FieldView { name: self.name@, ty: self.ty@, deco: self.deco }
    }
}

/// One generated struct: a role name, whether it is bound to the external
/// lifetime, its fields in order, and whether the argument-binding derive
/// decorates it.
pub struct StructDecl {
    pub name: String,
    pub lifetime: bool,
    pub fields: Vec<Field>,
    pub clap_args: bool,
}

/// The mathematical value of a [`StructDecl`].
#[verifier::ext_equal]
pub struct StructDeclView {
    pub name: Seq<char>,
    pub lifetime: bool,
    pub fields: Seq<FieldView>,
    pub clap_args: bool,
}

impl View for StructDecl {
    type V = StructDeclView;

    open spec fn view(&self) -> StructDeclView {
        StructDeclView {
            name: self.name@,
            lifetime: self.lifetime,
            fields: Seq::new(self.fields@.len(), |i: int| self.fields@[i]@),
            clap_args: self.clap_args,
        }
    }
}

/// One variant of a generated child-selector union.
pub struct Variant {
    pub name: String,
    pub ty: TyRef,
}

/// The mathematical value of a [`Variant`].
#[verifier::ext_equal]
pub struct VariantView {
    pub name: Seq<char>,
    pub ty: TyView,
}

impl View for Variant {
    type V = VariantView;

    open spec fn view(&self) -> VariantView {
        VariantView { name: self.name@, ty: self.ty@ }
    }
}

/// One generated child-selector union: a role name, the lifetime flag, one
/// variant per child in declaration order, and the subcommand decoration.
pub struct EnumDecl {
    pub name: String,
    pub lifetime: bool,
    pub variants: Vec<Variant>,
    pub clap_subcommand: bool,
}

/// The mathematical value of an [`EnumDecl`].
#[verifier::ext_equal]
pub struct EnumDeclView {
    pub name: Seq<char>,
    pub lifetime: bool,
    pub variants: Seq<VariantView>,
    pub clap_subcommand: bool,
}

impl View for EnumDecl {
    type V = EnumDeclView;

    open spec fn view(&self) -> EnumDeclView {
        EnumDeclView {
            name: self.name@,
            lifetime: self.lifetime,
            variants: Seq::new(self.variants@.len(), |i: int| self.variants@[i]@),
            clap_subcommand: self.clap_subcommand,
        }
    }
}

/// Everything generated for one node, plus the nested namespaces of its
/// children.
pub struct ModuleOutput {
    /// The schema marker type name; present only at the root.
    pub schema: Option<String>,
    /// One top-level accessor function name per root child; root only.
    pub root_fns: Vec<String>,
    pub path: StructDecl,
    pub owned_path: StructDecl,
    /// Absent for leaves and pruned nodes.
    pub prefix: Option<StructDecl>,
    pub owned_prefix: Option<StructDecl>,
    pub key: StructDecl,
    pub owned_key: StructDecl,
    pub params: StructDecl,
    pub owned_params: StructDecl,
    /// Absent for leaves; an empty union for pruned nodes.
    pub sub_prefix: Option<EnumDecl>,
    pub owned_sub_prefix: Option<EnumDecl>,
    pub sub_key: Option<EnumDecl>,
    pub owned_sub_key: Option<EnumDecl>,
    /// One nested namespace per child, pruned children included; pruned
    /// children simply contain no further nesting.
    pub children: Vec<ChildModule>,
}

/// One nested child namespace.
pub struct ChildModule {
    pub name: String,
    pub output: ModuleOutput,
}

/// The mathematical value of a [`ModuleOutput`].
#[verifier::ext_equal]
pub struct ModuleView {
    pub schema: Option<Seq<char>>,
    pub root_fns: Seq<Seq<char>>,
    pub path: StructDeclView,
    pub owned_path: StructDeclView,
    pub prefix: Option<StructDeclView>,
    pub owned_prefix: Option<StructDeclView>,
    pub key: StructDeclView,
    pub owned_key: StructDeclView,
    pub params: StructDeclView,
    pub owned_params: StructDeclView,
    pub sub_prefix: Option<EnumDeclView>,
    pub owned_sub_prefix: Option<EnumDeclView>,
    pub sub_key: Option<EnumDeclView>,
    pub owned_sub_key: Option<EnumDeclView>,
    pub children: Seq<ChildModuleView>,
}

/// The mathematical value of a [`ChildModule`].
#[verifier::ext_equal]
pub struct ChildModuleView {
    pub name: Seq<char>,
    pub output: ModuleView,
}

/// The view of an optional struct declaration.
pub open spec fn opt_struct_view(o: Option<StructDecl>) -> Option<StructDeclView> {
    match o {
        Some(d) => Some(d@),
        None => None,
    }
}

/// The view of an optional union declaration.
pub open spec fn opt_enum_view(o: Option<EnumDecl>) -> Option<EnumDeclView> {
    match o {
        Some(d) => Some(d@),
        None => None,
    }
}

/// The view of a module's output, written as a free function so that it can
/// carry its own termination measure.
pub open spec fn module_view(m: ModuleOutput) -> ModuleView
    decreases m,
{
    ModuleView {
        schema: match m.schema {
            Some(s) => Some(s@),
            None => None,
        },
        root_fns: Seq::new(m.root_fns@.len(), |i: int| m.root_fns@[i]@),
        path: m.path@,
        owned_path: m.owned_path@,
        prefix: opt_struct_view(m.prefix),
        owned_prefix: opt_struct_view(m.owned_prefix),
        key: m.key@,
        owned_key: m.owned_key@,
        params: m.params@,
        owned_params: m.owned_params@,
        sub_prefix: opt_enum_view(m.sub_prefix),
        owned_sub_prefix: opt_enum_view(m.owned_sub_prefix),
        sub_key: opt_enum_view(m.sub_key),
        owned_sub_key: opt_enum_view(m.owned_sub_key),
        children: child_module_views(m.children@),
    }
}

/// The views of a sequence of child namespaces, element for element.
pub open spec fn child_module_views(ms: Seq<ChildModule>) -> Seq<ChildModuleView>
    decreases ms,
{
    if ms.len() == 0 {
        Seq::empty()
    } else {
        child_module_views(ms.subrange(0, ms.len() - 1)).push(
            ChildModuleView {
                name: ms[ms.len() - 1].name@,
                output: module_view(ms[ms.len() - 1].output),
            },
        )
    }
}

/// `child_module_views` is the element-wise image of the child view.
pub proof fn lemma_child_module_views(ms: Seq<ChildModule>)
    ensures
        child_module_views(ms).len() == ms.len(),
        forall|i: int|
            0 <= i < ms.len() ==> #[trigger] child_module_views(ms)[i] == (ChildModuleView {
                name: ms[i].name@,
                output: module_view(ms[i].output),
            }),
    decreases ms.len(),
{
    if ms.len() > 0 {
        lemma_child_module_views(ms.subrange(0, ms.len() - 1));
        assert(forall|i: int|
            0 <= i < ms.len() - 1 ==> ms.subrange(0, ms.len() - 1)[i] == #[trigger] ms[i]);
    }
}

impl View for ModuleOutput {
    type V = ModuleView;

    open spec fn view(&self) -> ModuleView {
        module_view(*self)
    }
}

} // verus!
