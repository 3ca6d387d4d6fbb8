use quantum_core::project_workspace_router::{orient, ProjectWorkspaceError, ProjectWorkspaceMaterial, ProjectWorkspaceRoute};

fn material<'a>(domain: &'a str, turn_text: &'a str) -> ProjectWorkspaceMaterial<'a> {
    ProjectWorkspaceMaterial {
        project_id: 77,
        project_trace_id: 88,
        project_context_sha256: "aa11aa11aa11aa11aa11aa11aa11aa11aa11aa11aa11aa11aa11aa11aa11",
        request_sha256: "bb22bb22bb22bb22bb22bb22bb22bb22bb22bb22bb22bb22bb22bb22bb22",
        domain,
        turn_text,
        title: "Project NURA",
        hypothesis: "A mund të mbahet konteksti i projektit i ndarë?",
        assumptions: &[],
        description: "Material i projektit",
        files: &[],
    }
}

#[test]
fn project_workspace_orients_without_authority_fields() {
    let result = orient(material("project-workspace", "vazhdo bisedën")).expect("project workspace duhet të orientohet");
    assert_eq!(result.route, ProjectWorkspaceRoute::StorageAndConversation);
    let line = result.encode_line();
    assert!(line.contains("authority=NONE"));
    assert!(line.contains("token_policy=UNCHANGED"));
    assert!(line.contains("legacy_route=--project-process-once"));
    assert!(!line.to_ascii_lowercase().contains("lgctoken"));
}

#[test]
fn explicit_chat_stays_project_conversation_only() {
    let result = orient(material("project-chat", "çfarë ndryshoi në projekt?")).expect("project chat duhet të orientohet");
    assert_eq!(result.route, ProjectWorkspaceRoute::Conversation);
}

#[test]
fn same_input_produces_same_record_hashes() {
    let first = orient(material("project-storage", "")).expect("first");
    let second = orient(material("project-storage", "")).expect("second");
    assert_eq!(first.workspace_sha256, second.workspace_sha256);
    assert_eq!(first.material_sha256, second.material_sha256);
    assert_eq!(first.conversation_turn_sha256, second.conversation_turn_sha256);
}

#[test]
fn identity_and_hash_checks_come_in_order() {
    let mut m = material("", "x");
    m.project_id = 0;
    assert_eq!(orient(m).unwrap_err(), ProjectWorkspaceError::MissingProjectIdentity);
    let mut m = material("", "x");
    m.project_context_sha256 = "xyz";
    assert_eq!(orient(m).unwrap_err(), ProjectWorkspaceError::InvalidProjectContextSha256);
    let mut m = material("", "x");
    m.request_sha256 = "";
    assert_eq!(orient(m).unwrap_err(), ProjectWorkspaceError::InvalidRequestSha256);
    let mut m = material("", "x");
    m.request_sha256 = "ab";
    assert_eq!(orient(m).unwrap_err(), ProjectWorkspaceError::InvalidRequestSha256);
    let mut m = material("", "   ");
    m.title = " ";
    m.hypothesis = "";
    m.description = "\t";
    assert_eq!(orient(m).unwrap_err(), ProjectWorkspaceError::MissingProjectMaterial);
}

#[test]
fn route_follows_the_shape_without_explicit_domain() {
    assert_eq!(orient(material("  PROJECT-STORAGE ", "hi")).unwrap().route, ProjectWorkspaceRoute::Storage);
    assert_eq!(orient(material("general", "hi")).unwrap().route, ProjectWorkspaceRoute::StorageAndConversation);
    assert_eq!(orient(material("general", "")).unwrap().route, ProjectWorkspaceRoute::Storage);
    let mut m = material("general", "hi");
    m.title = "";
    m.hypothesis = "";
    m.description = "";
    assert_eq!(orient(m).unwrap().route, ProjectWorkspaceRoute::Conversation);
}

#[test]
fn orientation_lowers_identities_and_hashes_records() {
    let mut m = material("project-storage", "");
    m.project_context_sha256 = "AA11AA11AA11AA11AA11AA11AA11AA11AA11AA11AA11AA11AA11AA11AA11AA11";
    let o = orient(m).unwrap();
    assert_eq!(o.project_context_sha256, "aa11aa11aa11aa11aa11aa11aa11aa11aa11aa11aa11aa11aa11aa11aa11aa11");
    assert_eq!(o.workspace_sha256.len(), 64);
    assert_ne!(o.workspace_sha256, o.material_sha256);
    let line = o.encode_line();
    assert!(line.starts_with("ESSMAI_Q_PROJECT_WORKSPACE_V165|route=PROJECT_STORAGE|project_id=000000000000004d|"));
    assert!(line.ends_with("|token_policy=UNCHANGED\n"));
    let other = orient(material("project-storage", "another turn")).unwrap();
    assert_ne!(o.workspace_sha256, other.workspace_sha256);
    assert_ne!(o.conversation_turn_sha256, other.conversation_turn_sha256);
}

#[test]
fn record_hashes_match_their_formulas() {
    let o = orient(material("project-storage", "")).unwrap();
    assert_eq!(o.workspace_sha256, "28e13d555c92e05fd549df239ff2b6fb988d6186b6740179c2f33089bcef45cb");
    assert_eq!(o.material_sha256, "6b7390d99a0074655568f4f92d14043a29f7bb1c074925397116e089cf268d20");
    assert_eq!(o.conversation_turn_sha256, "ec1c63f2d1dd5c092d2f47552cdc01531f4f31765094f01abac8b5127b2e7958");
}
