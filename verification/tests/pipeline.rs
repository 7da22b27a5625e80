use schemata::generate::{Context, NodeInContextWithSettings};
use schemata::ir::{Children, Ir, Kind, Names, Settings};
use schemata::output::{FieldDeco, ModuleOutput, TyRef};
use schemata::syntax::{Child, Input, Name, Parameter, Parameters, Segment};

fn name(text: &str, span: u64) -> Name {
    Name { text: text.to_string(), span }
}

fn segment(text: &str, span: u64) -> Segment {
    Segment { name: name(text, span), renamed: None, params: None }
}

fn renamed_segment(text: &str, span: u64, rename: &str, rename_span: u64) -> Segment {
    Segment {
        name: name(text, span),
        renamed: Some(name(rename, rename_span)),
        params: None,
    }
}

fn leaf(seg: Segment, ty: &str) -> Child {
    Child::Leaf { segment: seg, ty: ty.to_string() }
}

fn internal(seg: Segment, children: Vec<Child>) -> Child {
    Child::Internal { segment: seg, children }
}

/// The schema `{ users(id: u64) { name: String; } }`.
fn users_schema() -> Input {
    let mut users = segment("users", 1);
    users.params = Some(Parameters {
        params: vec![Parameter { name: name("id", 2), ty: "u64".to_string() }],
    });
    Input { children: vec![internal(users, vec![leaf(segment("name", 3), "String")])] }
}

fn compile(input: &Input) -> (ModuleOutput, Vec<schemata::ir::Diagnostic>) {
    schemata::schema_internal(input, Settings::default())
}

#[test]
fn builder_decomposes_parameters() {
    let (ir, diags) = Ir::from_input(&users_schema(), Settings::default());
    assert!(diags.is_empty());

    let root_children = match &ir.root.children {
        Ok(Children::Below(cs)) => cs,
        _ => panic!("root must branch"),
    };
    assert_eq!(root_children.len(), 1);

    let users = &root_children[0];
    assert_eq!(users.header.mod_name.as_ref().unwrap().text, "users");
    match &users.header.kind {
        Kind::Static { renamed, param_count } => {
            assert!(renamed.is_none());
            assert_eq!(*param_count, 1);
        }
        _ => panic!("segment node must be static"),
    }

    // Exactly one parameter level stands between "users" and its children.
    let id = match &users.children {
        Ok(Children::Below(cs)) => {
            assert_eq!(cs.len(), 1);
            &cs[0]
        }
        _ => panic!("users must branch into its parameter level"),
    };
    assert_eq!(id.header.mod_name.as_ref().unwrap().text, "id");
    match &id.header.kind {
        Kind::Var(ty) => assert_eq!(ty, "u64"),
        _ => panic!("parameter level must bind a value"),
    }

    let name_node = match &id.children {
        Ok(Children::Below(cs)) => {
            assert_eq!(cs.len(), 1);
            &cs[0]
        }
        _ => panic!("parameter level must have exactly one child"),
    };
    assert_eq!(name_node.header.mod_name.as_ref().unwrap().text, "name");
    match &name_node.children {
        Ok(Children::Leaf(ty)) => assert_eq!(ty, "String"),
        _ => panic!("name must be a leaf"),
    }
    assert!(name_node.is_leaf());
    assert!(!id.is_leaf());
}

#[test]
fn parameter_order_first_declared_outermost() {
    let mut seg2 = segment("pair", 1);
    seg2.params = Some(Parameters {
        params: vec![
            Parameter { name: name("first", 2), ty: "u8".to_string() },
            Parameter { name: name("second", 3), ty: "u16".to_string() },
        ],
    });
    let input = Input { children: vec![leaf(seg2, "bool")] };
    let (ir, _) = Ir::from_input(&input, Settings::default());

    let pair = match &ir.root.children {
        Ok(Children::Below(cs)) => &cs[0],
        _ => panic!("root must branch"),
    };
    match &pair.header.kind {
        Kind::Static { param_count, .. } => assert_eq!(*param_count, 2),
        _ => panic!("pair must be static"),
    }
    let first = match &pair.children {
        Ok(Children::Below(cs)) => &cs[0],
        _ => panic!("pair must branch"),
    };
    assert_eq!(first.header.mod_name.as_ref().unwrap().text, "first");
    let second = match &first.children {
        Ok(Children::Below(cs)) => &cs[0],
        _ => panic!("first must wrap second"),
    };
    assert_eq!(second.header.mod_name.as_ref().unwrap().text, "second");
    match &second.children {
        Ok(Children::Leaf(ty)) => assert_eq!(ty, "bool"),
        _ => panic!("innermost level must hold the original leaf"),
    }
}

#[test]
fn generates_users_family() {
    let (out, diags) = compile(&users_schema());
    assert!(diags.is_empty());

    // Root extras.
    assert_eq!(out.schema.as_deref(), Some("Schema"));
    assert_eq!(out.root_fns, vec!["users".to_string()]);
    assert_eq!(out.children.len(), 1);

    // The "users" namespace has the full non-leaf family.
    let users = &out.children[0];
    assert_eq!(users.name, "users");
    let m = &users.output;
    assert!(m.schema.is_none());
    assert!(m.root_fns.is_empty());
    assert_eq!(m.path.name, "Path");
    assert_eq!(m.owned_path.name, "OwnedPath");
    assert!(m.prefix.is_some());
    assert!(m.sub_prefix.is_some());
    assert!(m.sub_key.is_some());

    // One parameter scope "id" stands before "name" is reachable.
    assert_eq!(m.children.len(), 1);
    let id = &m.children[0];
    assert_eq!(id.name, "id");
    let idm = &id.output;
    assert_eq!(idm.params.fields.len(), 1);
    assert_eq!(idm.params.fields[0].name, "id");
    assert!(matches!(&idm.params.fields[0].ty, TyRef::BorrowedValue(t) if t == "u64"));
    assert_eq!(idm.owned_params.fields[0].name, "id");
    assert!(matches!(&idm.owned_params.fields[0].ty, TyRef::Value(t) if t == "u64"));

    // "name" is a leaf: Path/Key/Params but no Prefix or selector unions.
    assert_eq!(idm.children.len(), 1);
    let name_mod = &idm.children[0];
    assert_eq!(name_mod.name, "name");
    let nm = &name_mod.output;
    assert!(nm.prefix.is_none());
    assert!(nm.owned_prefix.is_none());
    assert!(nm.sub_prefix.is_none());
    assert!(nm.sub_key.is_none());
    assert_eq!(nm.path.name, "Path");

    // A leaf's key selects no further child: it carries the value itself.
    assert_eq!(nm.key.name, "Key");
    assert!(matches!(&nm.key.fields[1].ty, TyRef::BorrowedValue(t) if t == "String"));
    assert!(matches!(&nm.owned_key.fields[1].ty, TyRef::Value(t) if t == "String"));
    assert!(nm.children.is_empty());
}

#[test]
fn structural_duplicate_pruned_silently() {
    let input = Input {
        children: vec![leaf(segment("a", 1), "u64"), leaf(segment("a", 2), "String")],
    };
    let (ir, diags) = Ir::from_input(&input, Settings::default());
    assert!(diags.is_empty());

    let cs = match &ir.root.children {
        Ok(Children::Below(cs)) => cs,
        _ => panic!("root must branch"),
    };
    assert_eq!(cs.len(), 2);
    assert!(cs[0].children.is_ok());
    assert!(cs[1].children.is_err());

    // Both sibling slots survive as namespaces, but the pruned one emits
    // empty selector unions and nothing below.
    let (out, diags) = compile(&input);
    assert!(diags.is_empty());
    assert_eq!(out.children.len(), 2);
    assert_eq!(out.children[0].name, "a");
    assert_eq!(out.children[1].name, "a");
    let pruned = &out.children[1].output;
    assert!(pruned.prefix.is_none());
    assert_eq!(pruned.sub_prefix.as_ref().unwrap().variants.len(), 0);
    assert_eq!(pruned.sub_key.as_ref().unwrap().variants.len(), 0);
    assert!(pruned.children.is_empty());
}

#[test]
fn visible_collision_reported() {
    let input = Input {
        children: vec![
            leaf(renamed_segment("a", 1, "x", 10), "u64"),
            leaf(renamed_segment("b", 2, "x", 20), "u64"),
        ],
    };
    let (ir, diags) = Ir::from_input(&input, Settings::default());

    let cs = match &ir.root.children {
        Ok(Children::Below(cs)) => cs,
        _ => panic!("root must branch"),
    };
    assert!(cs[0].children.is_ok());
    assert!(cs[1].children.is_err());

    assert_eq!(diags.len(), 1);
    assert_eq!(diags[0].name, "x");
    assert_eq!(diags[0].span, 20);
    assert_eq!(diags[0].first_span, 10);
    assert_eq!(diags[0].message(), "duplicate path segment: \"x\"");
}

#[test]
fn rename_collides_with_structural_name() {
    // The second segment is structurally distinct, but its rename reads
    // like the first segment's own name.
    let input = Input {
        children: vec![
            leaf(segment("x", 5), "u64"),
            leaf(renamed_segment("a", 6, "x", 60), "u64"),
        ],
    };
    let (ir, diags) = Ir::from_input(&input, Settings::default());
    let cs = match &ir.root.children {
        Ok(Children::Below(cs)) => cs,
        _ => panic!("root must branch"),
    };
    assert!(cs[0].children.is_ok());
    assert!(cs[1].children.is_err());
    assert_eq!(diags.len(), 1);
    assert_eq!(diags[0].name, "x");
    assert_eq!(diags[0].span, 60);
    assert_eq!(diags[0].first_span, 5);
}

#[test]
fn resolution_is_idempotent() {
    let input = Input {
        children: vec![
            leaf(segment("a", 1), "u64"),
            leaf(segment("a", 2), "u64"),
            leaf(segment("b", 3), "u64"),
        ],
    };
    let (mut ir, _) = Ir::from_input(&input, Settings::default());

    let shape = |ir: &Ir| -> Vec<bool> {
        match &ir.root.children {
            Ok(Children::Below(cs)) => cs.iter().map(|c| c.children.is_err()).collect(),
            _ => panic!("root must branch"),
        }
    };
    let before = shape(&ir);
    assert_eq!(before, vec![false, true, false]);

    // A second resolution pass changes nothing in the tree.
    ir.root.prune_duplicates();
    assert_eq!(shape(&ir), before);
}

#[test]
fn representations_mirror_each_other() {
    let (out, _) = compile(&users_schema());
    let field_names = |d: &schemata::output::StructDecl| -> Vec<String> {
        d.fields
            .iter()
            .filter(|f| !matches!(f.ty, TyRef::PhantomLifetime))
            .map(|f| f.name.clone())
            .collect()
    };

    let mut stack = vec![&out];
    while let Some(m) = stack.pop() {
        assert_eq!(field_names(&m.path), field_names(&m.owned_path));
        assert_eq!(field_names(&m.key), field_names(&m.owned_key));
        assert_eq!(field_names(&m.params), field_names(&m.owned_params));
        assert_eq!(m.prefix.is_some(), m.owned_prefix.is_some());
        if let (Some(a), Some(b)) = (&m.prefix, &m.owned_prefix) {
            assert_eq!(field_names(a), field_names(b));
        }
        assert_eq!(m.sub_prefix.is_some(), m.owned_sub_prefix.is_some());
        if let (Some(a), Some(b)) = (&m.sub_prefix, &m.owned_sub_prefix) {
            let av: Vec<_> = a.variants.iter().map(|v| v.name.clone()).collect();
            let bv: Vec<_> = b.variants.iter().map(|v| v.name.clone()).collect();
            assert_eq!(av, bv);
        }
        assert_eq!(m.sub_key.is_some(), m.owned_sub_key.is_some());
        if let (Some(a), Some(b)) = (&m.sub_key, &m.owned_sub_key) {
            let av: Vec<_> = a.variants.iter().map(|v| v.name.clone()).collect();
            let bv: Vec<_> = b.variants.iter().map(|v| v.name.clone()).collect();
            assert_eq!(av, bv);
        }
        for c in &m.children {
            stack.push(&c.output);
        }
    }
}

#[test]
fn zero_parameter_params_keep_lifetime_marker() {
    let (out, _) = compile(&users_schema());
    let users = &out.children[0].output;
    // The lightweight bundle still exists with only the lifetime marker;
    // the owned bundle is truly empty.
    assert!(users.params.lifetime);
    assert_eq!(users.params.fields.len(), 1);
    assert_eq!(users.params.fields[0].name, "__");
    assert!(matches!(users.params.fields[0].ty, TyRef::PhantomLifetime));
    assert!(!users.owned_params.lifetime);
    assert!(users.owned_params.fields.is_empty());
}

#[test]
fn empty_schema_generates_empty_unions() {
    let (out, diags) = compile(&Input { children: vec![] });
    assert!(diags.is_empty());
    assert_eq!(out.schema.as_deref(), Some("Schema"));
    assert!(out.root_fns.is_empty());
    assert!(out.children.is_empty());
    assert_eq!(out.sub_prefix.as_ref().unwrap().variants.len(), 0);
    assert_eq!(out.sub_key.as_ref().unwrap().variants.len(), 0);
}

#[test]
fn union_variants_follow_declaration_order() {
    let input = Input {
        children: vec![
            leaf(segment("beta", 1), "u64"),
            leaf(segment("alpha", 2), "u64"),
            leaf(segment("gamma", 3), "u64"),
        ],
    };
    let (out, _) = compile(&input);
    let names: Vec<_> = out
        .sub_key
        .as_ref()
        .unwrap()
        .variants
        .iter()
        .map(|v| v.name.clone())
        .collect();
    assert_eq!(names, vec!["beta", "alpha", "gamma"]);
    let v = &out.sub_key.as_ref().unwrap().variants[0];
    assert!(matches!(&v.ty, TyRef::ChildRole { child, role } if child == "beta" && role == "Key"));
}

#[test]
fn default_names_and_settings() {
    let names = Names::default();
    assert_eq!(names.Schema, "Schema");
    assert_eq!(names.Path, "Path");
    assert_eq!(names.OwnedPath, "OwnedPath");
    assert_eq!(names.Prefix, "Prefix");
    assert_eq!(names.OwnedPrefix, "OwnedPrefix");
    assert_eq!(names.Key, "Key");
    assert_eq!(names.OwnedKey, "OwnedKey");
    assert_eq!(names.Params, "Params");
    assert_eq!(names.OwnedParams, "OwnedParams");
    assert_eq!(names.SubPrefix, "SubPrefix");
    assert_eq!(names.OwnedSubPrefix, "OwnedSubPrefix");
    assert_eq!(names.SubKey, "SubKey");
    assert_eq!(names.OwnedSubKey, "OwnedSubKey");
    assert!(!Settings::default().extensions.clap);
}

#[test]
fn context_flags() {
    let root = Context { depth: 0, remaining_param_count: 0 };
    assert!(root.is_root());
    assert!(!root.has_remaining_params());
    let inner = Context { depth: 2, remaining_param_count: 1 };
    assert!(!inner.is_root());
    assert!(inner.has_remaining_params());
}

#[test]
fn clap_decoration_is_optional_and_shape_preserving() {
    let plain_settings = Settings::default();
    let mut clap_settings = Settings::default();
    clap_settings.extensions.clap = true;

    let (plain, _) = schemata::schema_internal(&users_schema(), plain_settings);
    let (decorated, _) = schemata::schema_internal(&users_schema(), clap_settings);

    // Off by default: nothing is decorated.
    assert!(!plain.owned_key.clap_args);
    assert!(matches!(plain.owned_key.fields[0].deco, FieldDeco::Plain));
    assert!(!plain.sub_key.as_ref().unwrap().clap_subcommand);
    assert!(!plain.owned_sub_key.as_ref().unwrap().clap_subcommand);

    // On: the owned key is an argument group with a flattened bundle and a
    // subcommand selector, and the owned parameter field takes a long flag.
    assert!(decorated.owned_key.clap_args);
    assert!(matches!(decorated.owned_key.fields[0].deco, FieldDeco::ClapFlatten));
    assert!(matches!(decorated.owned_key.fields[1].deco, FieldDeco::ClapSubcommand));
    assert!(decorated.owned_sub_key.as_ref().unwrap().clap_subcommand);
    let id_owned = &decorated.children[0].output.children[0].output.owned_params;
    assert!(id_owned.clap_args);
    assert!(matches!(id_owned.fields[0].deco, FieldDeco::ClapLong));

    // The decoration never changes names or field sets.
    assert_eq!(plain.owned_key.fields.len(), decorated.owned_key.fields.len());
    for (a, b) in plain.owned_key.fields.iter().zip(decorated.owned_key.fields.iter()) {
        assert_eq!(a.name, b.name);
    }
}

#[test]
fn generator_runs_per_node() {
    // The generator can be pointed at any node with an explicit context.
    let (ir, _) = Ir::from_input(&users_schema(), Settings::default());
    let users = match &ir.root.children {
        Ok(Children::Below(cs)) => &cs[0],
        _ => panic!("root must branch"),
    };
    let out = NodeInContextWithSettings {
        node: users,
        context: Context { depth: 1, remaining_param_count: 0 },
        settings: &ir.settings,
    }
    .generate();
    assert!(out.schema.is_none());
    assert!(out.root_fns.is_empty());
    assert!(out.prefix.is_some());
}

#[test]
fn nested_collisions_reported_before_pruning_discards_them() {
    // The resolver descends into a subtree before checking the subtree's
    // own name, so collisions inside a later-pruned group still surface.
    let inner = vec![
        leaf(renamed_segment("p", 31, "y", 310), "u64"),
        leaf(renamed_segment("q", 32, "y", 320), "u64"),
    ];
    let input = Input {
        children: vec![
            internal(segment("g", 1), vec![leaf(segment("ok", 11), "u64")]),
            internal(segment("g", 2), inner),
        ],
    };
    let (ir, diags) = Ir::from_input(&input, Settings::default());

    let cs = match &ir.root.children {
        Ok(Children::Below(cs)) => cs,
        _ => panic!("root must branch"),
    };
    assert!(cs[0].children.is_ok());
    assert!(cs[1].children.is_err());

    assert_eq!(diags.len(), 1);
    assert_eq!(diags[0].name, "y");
    assert_eq!(diags[0].span, 320);
    assert_eq!(diags[0].first_span, 310);
}

#[test]
fn diagnostics_follow_traversal_order() {
    let input = Input {
        children: vec![
            leaf(renamed_segment("a", 1, "x", 10), "u64"),
            leaf(renamed_segment("b", 2, "x", 20), "u64"),
            leaf(renamed_segment("c", 3, "x", 30), "u64"),
        ],
    };
    let (_, diags) = Ir::from_input(&input, Settings::default());
    assert_eq!(diags.len(), 2);
    // Both later occurrences point back at the very first "x".
    assert_eq!(diags[0].span, 20);
    assert_eq!(diags[0].first_span, 10);
    assert_eq!(diags[1].span, 30);
    assert_eq!(diags[1].first_span, 10);
}

#[test]
fn empty_parameter_list_adds_no_levels() {
    // An empty parameter list and an absent one build the same tree: the
    // named node is attached directly, with no parameter levels.
    let mut seg0 = segment("plain", 1);
    seg0.params = Some(Parameters { params: vec![] });
    let input = Input { children: vec![leaf(seg0, "u32")] };
    let (ir, _) = Ir::from_input(&input, Settings::default());

    let plain = match &ir.root.children {
        Ok(Children::Below(cs)) => &cs[0],
        _ => panic!("root must branch"),
    };
    match &plain.header.kind {
        Kind::Static { param_count, .. } => assert_eq!(*param_count, 0),
        _ => panic!("plain must be static"),
    }
    match &plain.children {
        Ok(Children::Leaf(ty)) => assert_eq!(ty, "u32"),
        _ => panic!("plain must hold its leaf directly"),
    }
}
