use rust_libretro_proc::context::{context, is_env_callback, FnArg};
use rust_libretro_proc::derive::{AttrPath, PathSegment};
use rust_libretro_proc::unstable::{feature_name, unstable, MetaArg};

fn segments_path(parts: &[&str]) -> AttrPath {
    AttrPath {
        leading_colon: false,
        segments: parts.iter().map(|p| PathSegment { ident: p.to_string(), has_arguments: false }).collect(),
    }
}

#[test]
fn feature_defaults_to_unstable() {
    let plan = unstable(&vec![], &vec![], true, true);
    let gate = plan.gate.unwrap();
    assert_eq!(gate.feature, "unstable");
    assert!(plan.make_unsafe);
}

#[test]
fn feature_from_a_literal_argument() {
    let plan = unstable(&vec![MetaArg::Lit { index: 0 }], &vec!["\"fancy\"".to_string()], false, true);
    assert!(!plan.make_unsafe);
    assert_eq!(plan.gate.unwrap().feature, "unstable-fancy");
}

#[test]
fn feature_from_a_name_value_argument() {
    let lits = vec!["3".to_string(), "\"netplay\"".to_string(), "\"later\"".to_string()];
    let args = vec![MetaArg::Other, MetaArg::Lit { index: 0 }, MetaArg::NameValue { index: 1 }, MetaArg::Lit { index: 2 }];
    let plan = unstable(&args, &lits, true, true);
    assert_eq!(plan.gate.unwrap().feature, "unstable-netplay");
}

#[test]
fn feature_from_a_bare_name() {
    let plan = unstable(&vec![MetaArg::Path { ident: "foo".to_string() }], &vec![], true, true);
    let gate = plan.gate.unwrap();
    assert_eq!(gate.feature, "unstable-foo");
    assert_eq!(
        gate.notice,
        "# This feature is unstable and guarded by the `unstable-foo` feature flag.\nPlease be advised that this feature might change without further noticeand no guarantees about its stability can be made."
    );
}

#[test]
fn first_named_argument_wins() {
    let lits = vec!["\"netplay\"".to_string()];
    let args = vec![MetaArg::Other, MetaArg::Path { ident: "audio".to_string() }, MetaArg::NameValue { index: 0 }];
    assert_eq!(unstable(&args, &lits, false, true).gate.unwrap().feature, "unstable-audio");
}

#[test]
fn private_items_are_not_gated() {
    let plan = unstable(&vec![MetaArg::Lit { index: 0 }], &vec!["\"x\"".to_string()], true, false);
    assert!(plan.gate.is_none());
    assert!(plan.make_unsafe);
}

#[test]
fn documentation_of_a_gated_item() {
    let plan = unstable(&vec![], &vec![], true, true);
    let gate = plan.gate.unwrap();
    assert_eq!(gate.badge, "<span class='stab unstable'>Unstable</span>");
    assert_eq!(
        gate.notice,
        "# This feature is unstable and guarded by the `unstable` feature flag.\nPlease be advised that this feature might change without further noticeand no guarantees about its stability can be made."
    );
}

#[test]
fn feature_name_skips_non_strings() {
    let lits = vec![Some("y".to_string())];
    assert_eq!(feature_name(&vec![MetaArg::Other, MetaArg::Lit { index: 7 }, MetaArg::Lit { index: 0 }], &lits), "unstable-y");
    assert_eq!(feature_name(&vec![MetaArg::Other], &lits), "unstable");
}

#[test]
fn environment_callback_parameter_is_removed() {
    let args = vec![
        FnArg::Typed { type_path: Some(segments_path(&["retro_environment_t"])), binds_ident: true },
        FnArg::Typed { type_path: Some(segments_path(&["u32"])), binds_ident: true },
        FnArg::Typed { type_path: Some(segments_path(&["rust_libretro_sys", "retro_environment_t"])), binds_ident: true },
        FnArg::Typed { type_path: None, binds_ident: true },
        FnArg::Typed { type_path: Some(segments_path(&["Foo"])), binds_ident: false },
    ];
    let attrs = vec![segments_path(&["inline"]), segments_path(&["context"]), segments_path(&["rust_libretro_proc", "context"]), segments_path(&["doc"])];
    let plan = context(&args, &attrs);
    assert_eq!(plan.kept_args, vec![1, 3, 4]);
    assert_eq!(plan.call_args, vec![1, 3]);
    assert_eq!(plan.kept_attrs, vec![0, 3]);
}

#[test]
fn receivers_stay_but_are_not_forwarded() {
    let args = vec![FnArg::Receiver, FnArg::Typed { type_path: Some(segments_path(&["bool"])), binds_ident: true }];
    let plan = context(&args, &vec![]);
    assert_eq!(plan.kept_args, vec![0, 1]);
    assert_eq!(plan.call_args, vec![1]);
}

#[test]
fn callback_is_found_by_the_last_segment() {
    let arg = FnArg::Typed { type_path: Some(segments_path(&["a", "b", "retro_environment_t"])), binds_ident: false };
    assert!(is_env_callback(&arg));
    let arg = FnArg::Typed { type_path: Some(segments_path(&["retro_environment_t", "x"])), binds_ident: false };
    assert!(!is_env_callback(&arg));
    assert!(!is_env_callback(&FnArg::Receiver));
}
