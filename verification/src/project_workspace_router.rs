//! Orientation of an isolated project workspace: a verified project input is
//! routed to project storage, project conversation, or both, and bound to
//! deterministic SHA-256 record identities. The module stores nothing, gives
//! no verdict and opens no capability token.

use vstd::prelude::*;
use vstd::string::StringExecFns;
use crate::codec::{push_le, push_bytes, le_bytes, le64, le32, utf8, all_hex, bytes_all_hex, is_hex_byte};
use crate::sha::{sha256, sha256_of};
use crate::text::{
    is_ws, trim_front, ascii_lower, ascii_lower_char, ascii_lowercase, hex_digit, hex_lower, hex_of_bytes, is_blank, lower_chars, push_hex,
    str_eq, str_is_blank, trim_chars, trimmed,
};
use crate::living_trust_contract::hex_32;

verus! {

pub const PROJECT_WORKSPACE_VERSION: u32 = 0x0001_0605;
pub const PROJECT_WORKSPACE_DOMAIN: &'static str = "ESS_MAI_QUANTUM_PROJECT_WORKSPACE_V165";

/// Where a project request is oriented.
#[derive(Debug, Clone, Copy, PartialEq, Eq, Structural)]
pub enum ProjectWorkspaceRoute {
    Storage,
    Conversation,
    StorageAndConversation,
}

pub open spec fn route_label(r: ProjectWorkspaceRoute) -> Seq<char> {
    match r {
        ProjectWorkspaceRoute::Storage => "PROJECT_STORAGE"@,
        ProjectWorkspaceRoute::Conversation => "PROJECT_CONVERSATION"@,
        ProjectWorkspaceRoute::StorageAndConversation => "PROJECT_STORAGE_AND_CONVERSATION"@,
    }
}

impl ProjectWorkspaceRoute {
    pub fn label(self) -> (r: &'static str)
        ensures
            r@ == route_label(self),
    {
        match self {
            ProjectWorkspaceRoute::Storage => "PROJECT_STORAGE",
            ProjectWorkspaceRoute::Conversation => "PROJECT_CONVERSATION",
            ProjectWorkspaceRoute::StorageAndConversation => "PROJECT_STORAGE_AND_CONVERSATION",
        }
    }
}

/// The project input as handed over by the verified intake.
#[derive(Debug, Clone, Copy)]
pub struct ProjectWorkspaceMaterial<'a> {
    pub project_id: u64,
    pub project_trace_id: u64,
    pub project_context_sha256: &'a str,
    pub request_sha256: &'a str,
    pub domain: &'a str,
    pub turn_text: &'a str,
    pub title: &'a str,
    pub hypothesis: &'a str,
    pub assumptions: &'a [String],
    pub description: &'a str,
    pub files: &'a [(u8, Vec<u8>)],
}

/// Identities and orientation only: no token, receipt or verdict.
#[derive(Debug, Clone, PartialEq, Eq)]
pub struct ProjectWorkspaceOrientation {
    pub route: ProjectWorkspaceRoute,
    pub project_id: u64,
    pub project_trace_id: u64,
    pub project_context_sha256: String,
    pub request_sha256: String,
    pub workspace_sha256: String,
    pub material_sha256: String,
    pub conversation_turn_sha256: String,
}

#[derive(Debug, Clone, Copy, PartialEq, Eq, Structural)]
pub enum ProjectWorkspaceError {
    MissingProjectIdentity,
    InvalidProjectContextSha256,
    InvalidRequestSha256,
    MissingProjectMaterial,
}

/// The wire line of an orientation.
pub open spec fn encode_line_spec(o: ProjectWorkspaceOrientation) -> Seq<char> {
    "ESSMAI_Q_PROJECT_WORKSPACE_V165|route="@ + route_label(o.route) + "|project_id="@ + hex_lower(
        o.project_id,
        16,
    ) + "|project_trace_id="@ + hex_lower(o.project_trace_id, 16) + "|project_context_sha256="@
        + o.project_context_sha256@ + "|request_sha256="@ + o.request_sha256@
        + "|workspace_sha256="@ + o.workspace_sha256@ + "|material_sha256="@ + o.material_sha256@
        + "|conversation_turn_sha256="@ + o.conversation_turn_sha256@
        + "|legacy_route=--project-process-once|authority=NONE|token_policy=UNCHANGED\n"@
}

impl ProjectWorkspaceOrientation {
    /// The response line: identities and orientation, `authority=NONE`.
    pub fn encode_line(&self) -> (r: String)
        ensures
            r@ == encode_line_spec(*self),
    {
        let mut out = String::from_str("ESSMAI_Q_PROJECT_WORKSPACE_V165|route=");
        out.append(self.route.label());
        out.append("|project_id=");
        push_hex(&mut out, self.project_id, 16);
        out.append("|project_trace_id=");
        push_hex(&mut out, self.project_trace_id, 16);
        out.append("|project_context_sha256=");
        out.append(self.project_context_sha256.as_str());
        out.append("|request_sha256=");
        out.append(self.request_sha256.as_str());
        out.append("|workspace_sha256=");
        out.append(self.workspace_sha256.as_str());
        out.append("|material_sha256=");
        out.append(self.material_sha256.as_str());
        out.append("|conversation_turn_sha256=");
        out.append(self.conversation_turn_sha256.as_str());
        out.append("|legacy_route=--project-process-once|authority=NONE|token_policy=UNCHANGED\n");
        out
    }
}

/// A record identity in hexadecimal: the 64 ASCII hexadecimal digits of a
/// SHA-256 digest, or the 60-digit short form that the project intake also
/// hands over.
pub open spec fn hex_identity(b: Seq<u8>) -> bool {
    &&& (b.len() == 64 || b.len() == 60)
    &&& all_hex(b)
}

pub fn is_sha256(value: &str) -> (r: bool)
    ensures
        r == hex_identity(utf8(value@)),
{
    let b = value.as_bytes();
    (b.len() == 64 || b.len() == 60) && bytes_all_hex(b)
}

/// Some stored material: a non-blank title, hypothesis or description, or
/// any assumption or file.
pub open spec fn has_material_spec(m: ProjectWorkspaceMaterial) -> bool {
    ||| !is_blank(m.title@)
    ||| !is_blank(m.hypothesis@)
    ||| !is_blank(m.description@)
    ||| m.assumptions@.len() > 0
    ||| m.files@.len() > 0
}

pub open spec fn has_turn_spec(m: ProjectWorkspaceMaterial) -> bool {
    !is_blank(m.turn_text@)
}

/// The route: an explicit domain wins (workspace, then storage, then
/// conversation); otherwise the shape of the input decides.
pub open spec fn route_spec(norm: Seq<char>, has_material: bool, has_turn: bool) -> ProjectWorkspaceRoute {
    if norm == "project-workspace"@ || norm == "project-storage-chat"@ || norm
        == "project:workspace"@ {
        ProjectWorkspaceRoute::StorageAndConversation
    } else if norm == "project-storage"@ || norm == "project_store"@ || norm == "project:store"@ {
        ProjectWorkspaceRoute::Storage
    } else if norm == "project-conversation"@ || norm == "project-chat"@ || norm
        == "project:chat"@ {
        ProjectWorkspaceRoute::Conversation
    } else if has_material && has_turn {
        ProjectWorkspaceRoute::StorageAndConversation
    } else if has_material {
        ProjectWorkspaceRoute::Storage
    } else {
        ProjectWorkspaceRoute::Conversation
    }
}

/// The domain, trimmed and with ASCII letters lowered.
pub open spec fn normalized_domain(domain: Seq<char>) -> Seq<char> {
    ascii_lower(trimmed(domain))
}

/// A text that neither starts nor ends with white space is its own trim.
proof fn lemma_trimmed_unchanged(s: Seq<char>)
    requires
        s.len() > 0,
        !is_ws(s[0]),
        !is_ws(s.last()),
    ensures
        trimmed(s) == s,
{
    assert(trim_front(s) == s);
}

/// A text without ASCII capitals is its own ASCII lowercase.
proof fn lemma_lower_unchanged(s: Seq<char>)
    requires
        forall|i: int| 0 <= i < s.len() ==> !('A' <= #[trigger] s[i] && s[i] <= 'Z'),
    ensures
        ascii_lower(s) == s,
{
    assert(ascii_lower(s) =~= s);
}

/// The explicit domains route on their own, whatever the material and the
/// turn: `project-workspace` to both, `project-storage` to storage,
/// `project-chat` to the conversation.
pub proof fn law_explicit_domains_route(has_material: bool, has_turn: bool)
    ensures
        route_spec(normalized_domain("project-workspace"@), has_material, has_turn)
            == ProjectWorkspaceRoute::StorageAndConversation,
        route_spec(normalized_domain("project-storage"@), has_material, has_turn)
            == ProjectWorkspaceRoute::Storage,
        route_spec(normalized_domain("project-chat"@), has_material, has_turn)
            == ProjectWorkspaceRoute::Conversation,
{
    reveal_strlit("project-workspace");
    reveal_strlit("project-storage");
    reveal_strlit("project-chat");
    reveal_strlit("project-storage-chat");
    reveal_strlit("project:workspace");
    reveal_strlit("project_store");
    reveal_strlit("project:store");
    reveal_strlit("project-conversation");
    reveal_strlit("project:chat");
    let a = "project-workspace"@;
    let b = "project-storage"@;
    let c = "project-chat"@;
    assert(a =~= seq!['p','r','o','j','e','c','t','-','w','o','r','k','s','p','a','c','e']);
    assert(b =~= seq!['p','r','o','j','e','c','t','-','s','t','o','r','a','g','e']);
    assert(c =~= seq!['p','r','o','j','e','c','t','-','c','h','a','t']);
    lemma_trimmed_unchanged(a);
    lemma_trimmed_unchanged(b);
    lemma_trimmed_unchanged(c);
    lemma_lower_unchanged(a);
    lemma_lower_unchanged(b);
    lemma_lower_unchanged(c);
}

pub fn route_from_domain_and_shape(domain: &str, has_material: bool, has_turn: bool) -> (r:
    ProjectWorkspaceRoute)
    ensures
        r == route_spec(normalized_domain(domain@), has_material, has_turn),
{
    let t = trim_chars(domain);
    let normalized = lower_chars(&t);
    let n = normalized.as_str();
    if str_eq(n, "project-workspace") || str_eq(n, "project-storage-chat") || str_eq(
        n,
        "project:workspace",
    ) {
        ProjectWorkspaceRoute::StorageAndConversation
    } else if str_eq(n, "project-storage") || str_eq(n, "project_store") || str_eq(
        n,
        "project:store",
    ) {
        ProjectWorkspaceRoute::Storage
    } else if str_eq(n, "project-conversation") || str_eq(n, "project-chat") || str_eq(
        n,
        "project:chat",
    ) {
        ProjectWorkspaceRoute::Conversation
    } else if has_material && has_turn {
        ProjectWorkspaceRoute::StorageAndConversation
    } else if has_material {
        ProjectWorkspaceRoute::Storage
    } else {
        ProjectWorkspaceRoute::Conversation
    }
}

/// A text field: its UTF-8 length as 8 little-endian bytes, then its bytes.
pub open spec fn text_field(s: Seq<char>) -> Seq<u8> {
    le64(utf8(s).len() as u64) + utf8(s)
}

/// The common prefix of every record: domain, version and record tag.
pub open spec fn record_head(tag: Seq<char>) -> Seq<u8> {
    utf8(PROJECT_WORKSPACE_DOMAIN@) + le32(PROJECT_WORKSPACE_VERSION) + utf8(tag)
}

pub open spec fn workspace_material(id: u64, trace: u64, context: Seq<char>) -> Seq<u8> {
    record_head("WORKSPACE_ID"@) + le64(id) + le64(trace) + text_field(ascii_lower(context))
}

pub open spec fn texts_material(s: Seq<String>) -> Seq<u8>
    decreases s.len(),
{
    if s.len() == 0 {
        Seq::empty()
    } else {
        texts_material(s.drop_last()) + text_field(s.last()@)
    }
}

pub open spec fn files_material(f: Seq<(u8, Vec<u8>)>) -> Seq<u8>
    decreases f.len(),
{
    if f.len() == 0 {
        Seq::empty()
    } else {
        files_material(f.drop_last()) + seq![f.last().0] + le64(f.last().1@.len() as u64)
            + f.last().1@
    }
}

pub open spec fn project_material(m: ProjectWorkspaceMaterial) -> Seq<u8> {
    record_head("PROJECT_MATERIAL"@) + text_field(m.title@) + text_field(m.hypothesis@) + le64(
        m.assumptions@.len() as u64,
    ) + texts_material(m.assumptions@) + text_field(m.description@) + le64(
        m.files@.len() as u64,
    ) + files_material(m.files@)
}

pub open spec fn conversation_material(m: ProjectWorkspaceMaterial, workspace: Seq<char>) -> Seq<
    u8,
> {
    record_head("PROJECT_CONVERSATION_TURN"@) + text_field(workspace) + text_field(m.domain@)
        + text_field(m.turn_text@)
}

/// Appends a text field.
fn push_text(out: &mut Vec<u8>, s: &str)
    ensures
        final(out)@ == old(out)@ + text_field(s@),
{
    let b = s.as_bytes();
    push_le(out, b.len() as u64, 8);
    push_bytes(out, b);
}

/// Appends the common record prefix.
fn push_head(out: &mut Vec<u8>, tag: &str)
    ensures
        final(out)@ == old(out)@ + record_head(tag@),
{
    push_bytes(out, PROJECT_WORKSPACE_DOMAIN.as_bytes());
    push_le(out, PROJECT_WORKSPACE_VERSION as u64, 4);
    push_bytes(out, tag.as_bytes());
    assert(le_bytes(PROJECT_WORKSPACE_VERSION as u64, 4) == le32(PROJECT_WORKSPACE_VERSION));
}

pub fn workspace_sha256(project_id: u64, project_trace_id: u64, project_context_sha256: &str) -> (r:
    String)
    ensures
        r@ == hex_of_bytes(
            sha256_of(workspace_material(project_id, project_trace_id, project_context_sha256@)),
        ),
{
    let mut m: Vec<u8> = Vec::new();
    push_head(&mut m, "WORKSPACE_ID");
    push_le(&mut m, project_id, 8);
    push_le(&mut m, project_trace_id, 8);
    let lowered = ascii_lowercase(project_context_sha256);
    push_text(&mut m, lowered.as_str());
    assert(m@ =~= workspace_material(project_id, project_trace_id, project_context_sha256@));
    hex_32(&sha256(m.as_slice()))
}

pub fn project_material_sha256(material: &ProjectWorkspaceMaterial) -> (r: String)
    ensures
        r@ == hex_of_bytes(sha256_of(project_material(*material))),
{
    let mut m: Vec<u8> = Vec::new();
    push_head(&mut m, "PROJECT_MATERIAL");
    push_text(&mut m, material.title);
    push_text(&mut m, material.hypothesis);
    push_le(&mut m, material.assumptions.len() as u64, 8);
    let ghost before = m@;
    let mut i: usize = 0;
    while i < material.assumptions.len()
        invariant
            i <= material.assumptions@.len(),
            m@ == before + texts_material(material.assumptions@.take(i as int)),
        decreases material.assumptions@.len() - i,
    {
        push_text(&mut m, material.assumptions[i].as_str());
        assert(material.assumptions@.take(i + 1).drop_last() =~= material.assumptions@.take(
            i as int,
        ));
        assert(m@ =~= before + texts_material(material.assumptions@.take(i + 1)));
        i += 1;
    }
    assert(material.assumptions@.take(i as int) =~= material.assumptions@);
    push_text(&mut m, material.description);
    push_le(&mut m, material.files.len() as u64, 8);
    let ghost before_files = m@;
    let mut j: usize = 0;
    while j < material.files.len()
        invariant
            j <= material.files@.len(),
            m@ == before_files + files_material(material.files@.take(j as int)),
        decreases material.files@.len() - j,
    {
        let (kind, bytes) = &material.files[j];
        m.push(*kind);
        push_le(&mut m, bytes.len() as u64, 8);
        push_bytes(&mut m, bytes.as_slice());
        assert(material.files@.take(j + 1).drop_last() =~= material.files@.take(j as int));
        assert(m@ =~= before_files + files_material(material.files@.take(j + 1)));
        j += 1;
    }
    assert(material.files@.take(j as int) =~= material.files@);
    assert(m@ =~= project_material(*material));
    hex_32(&sha256(m.as_slice()))
}

pub fn conversation_turn_sha256(material: &ProjectWorkspaceMaterial, workspace_sha256: &str) -> (r:
    String)
    ensures
        r@ == hex_of_bytes(sha256_of(conversation_material(*material, workspace_sha256@))),
{
    let mut m: Vec<u8> = Vec::new();
    push_head(&mut m, "PROJECT_CONVERSATION_TURN");
    push_text(&mut m, workspace_sha256);
    push_text(&mut m, material.domain);
    push_text(&mut m, material.turn_text);
    assert(m@ =~= conversation_material(*material, workspace_sha256@));
    hex_32(&sha256(m.as_slice()))
}

/// The first check an input fails, in the order they are made.
pub open spec fn orient_error(m: ProjectWorkspaceMaterial) -> Option<ProjectWorkspaceError> {
    if m.project_id == 0 || m.project_trace_id == 0 {
        Some(ProjectWorkspaceError::MissingProjectIdentity)
    } else if !hex_identity(utf8(m.project_context_sha256@)) {
        Some(ProjectWorkspaceError::InvalidProjectContextSha256)
    } else if !hex_identity(utf8(m.request_sha256@)) {
        Some(ProjectWorkspaceError::InvalidRequestSha256)
    } else if !has_material_spec(m) && !has_turn_spec(m) {
        Some(ProjectWorkspaceError::MissingProjectMaterial)
    } else {
        None
    }
}

/// Orients a project input: refused with the first failed check, else
/// routed and bound to its workspace, material and conversation-turn digests.
pub fn orient(material: ProjectWorkspaceMaterial) -> (r: Result<
    ProjectWorkspaceOrientation,
    ProjectWorkspaceError,
>)
    ensures
        orient_error(material) matches Some(e) ==> r == Err::<ProjectWorkspaceOrientation, _>(e),
        orient_error(material) is None ==> (r matches Ok(o) && {
            let ws = hex_of_bytes(
                sha256_of(
                    workspace_material(
                        material.project_id,
                        material.project_trace_id,
                        material.project_context_sha256@,
                    ),
                ),
            );
            &&& o.route == route_spec(
                normalized_domain(material.domain@),
                has_material_spec(material),
                has_turn_spec(material),
            )
            &&& o.project_id == material.project_id
            &&& o.project_trace_id == material.project_trace_id
            &&& o.project_context_sha256@ == ascii_lower(material.project_context_sha256@)
            &&& o.request_sha256@ == ascii_lower(material.request_sha256@)
            &&& o.workspace_sha256@ == ws
            &&& o.material_sha256@ == hex_of_bytes(sha256_of(project_material(material)))
            &&& o.conversation_turn_sha256@ == hex_of_bytes(
                sha256_of(conversation_material(material, ws)),
            )
            &&& digests_are_hex(o)
        }),
{
    if !(material.project_id != 0 && material.project_trace_id != 0) {
        return Err(ProjectWorkspaceError::MissingProjectIdentity);
    }
    if !is_sha256(material.project_context_sha256) {
        return Err(ProjectWorkspaceError::InvalidProjectContextSha256);
    }
    if !is_sha256(material.request_sha256) {
        return Err(ProjectWorkspaceError::InvalidRequestSha256);
    }
    let has_material = !str_is_blank(material.title) || !str_is_blank(material.hypothesis)
        || !str_is_blank(material.description) || material.assumptions.len() > 0
        || material.files.len() > 0;
    let has_turn = !str_is_blank(material.turn_text);
    if !(has_material || has_turn) {
        return Err(ProjectWorkspaceError::MissingProjectMaterial);
    }
    let route = route_from_domain_and_shape(material.domain, has_material, has_turn);
    let workspace_sha256 = workspace_sha256(
        material.project_id,
        material.project_trace_id,
        material.project_context_sha256,
    );
    let material_sha256 = project_material_sha256(&material);
    let conversation_turn_sha256 = conversation_turn_sha256(&material, workspace_sha256.as_str());
    proof {
        lemma_lowered_hex_text(material.project_context_sha256@);
        lemma_lowered_hex_text(material.request_sha256@);
        lemma_hex_of_bytes_text(sha256_of(workspace_material(material.project_id, material.project_trace_id, material.project_context_sha256@)));
        lemma_hex_of_bytes_text(sha256_of(project_material(material)));
        lemma_hex_of_bytes_text(sha256_of(conversation_material(material, workspace_sha256@)));
    }
    Ok(
        ProjectWorkspaceOrientation {
            route,
            project_id: material.project_id,
            project_trace_id: material.project_trace_id,
            project_context_sha256: ascii_lowercase(material.project_context_sha256),
            request_sha256: ascii_lowercase(material.request_sha256),
            workspace_sha256,
            material_sha256,
            conversation_turn_sha256,
        },
    )
}

/// A lowercase hexadecimal digit.
pub open spec fn is_hex_lower_char(c: char) -> bool {
    ('0' <= c && c <= '9') || ('a' <= c && c <= 'f')
}

/// Text made of lowercase hexadecimal digits only.
pub open spec fn hex_text(s: Seq<char>) -> bool {
    forall|i: int| 0 <= i < s.len() ==> is_hex_lower_char(#[trigger] s[i])
}

/// The digests an orientation carries are lowercase hexadecimal text.
pub open spec fn digests_are_hex(o: ProjectWorkspaceOrientation) -> bool {
    &&& hex_text(o.project_context_sha256@)
    &&& hex_text(o.request_sha256@)
    &&& hex_text(o.workspace_sha256@)
    &&& hex_text(o.material_sha256@)
    &&& hex_text(o.conversation_turn_sha256@)
}

proof fn lemma_hex_digit_char(n: u64)
    requires
        n < 16,
    ensures
        is_hex_lower_char(hex_digit(n)),
{
    if n < 10 {
        assert(hex_digit(n) as u32 == 48 + n);
    } else {
        assert(hex_digit(n) as u32 == 97 + n - 10);
    }
}

proof fn lemma_hex_lower_text(x: u64, w: nat)
    ensures
        hex_text(hex_lower(x, w)),
{
    assert forall|i: int| 0 <= i < w implies is_hex_lower_char(#[trigger] hex_lower(x, w)[i]) by {
        let y: u64 = (x >> (4 * (w - 1 - i)) as u64);
        assert((y & 0xf) < 16) by (bit_vector);
        lemma_hex_digit_char(y & 0xf);
    }
}

proof fn lemma_hex_text_concat(a: Seq<char>, b: Seq<char>)
    requires
        hex_text(a),
        hex_text(b),
    ensures
        hex_text(a + b),
{
    assert forall|i: int| 0 <= i < (a + b).len() implies is_hex_lower_char(#[trigger] (a + b)[i]) by {
        if i < a.len() {
            assert((a + b)[i] == a[i]);
        } else {
            assert((a + b)[i] == b[i - a.len()]);
        }
    }
}

proof fn lemma_hex_of_bytes_text(b: Seq<u8>)
    ensures
        hex_text(hex_of_bytes(b)),
    decreases b.len(),
{
    if b.len() > 0 {
        lemma_hex_of_bytes_text(b.drop_last());
        lemma_hex_lower_text(b.last() as u64, 2);
        lemma_hex_text_concat(hex_of_bytes(b.drop_last()), hex_lower(b.last() as u64, 2));
    }
}

/// The characters of a text whose UTF-8 bytes are all hexadecimal digits
/// are those digits, so the text lowered is lowercase hexadecimal.
proof fn lemma_lowered_hex_text(s: Seq<char>)
    requires
        all_hex(utf8(s)),
    ensures
        hex_text(ascii_lower(s)),
    decreases s.len(),
{
    if s.len() > 0 {
        let c = s[0];
        let v = c as u32;
        let head = vstd::utf8::encode_scalar(v);
        let rest = vstd::utf8::encode_utf8(s.drop_first());
        assert(utf8(s) == head + rest);
        assert(head.len() >= 1);
        assert forall|i: int| 0 <= i < rest.len() implies is_hex_byte(#[trigger] rest[i]) by {
            assert((head + rest)[head.len() + i] == rest[i]);
        }
        assert(utf8(s.drop_first()) == rest);
        lemma_lowered_hex_text(s.drop_first());
        let b0 = head[0];
        assert((head + rest)[0] == b0);
        assert(is_hex_byte(b0));
        vstd::utf8::char_is_scalar(c);
        if vstd::utf8::has_width_1_encoding(v) {
            assert(b0 == (v & 0x7F) as u8);
            assert(((v & 0x7F) as u8) as u32 == v) by (bit_vector)
                requires
                    v <= 0x7f,
            ;
        } else if vstd::utf8::has_width_2_encoding(v) {
            assert((0xC0u8 | ((v >> 6) & 0x1F) as u8) >= 0xC0) by (bit_vector);
        } else if vstd::utf8::has_width_3_encoding(v) {
            assert((0xE0u8 | ((v >> 12) & 0x0F) as u8) >= 0xC0) by (bit_vector);
        } else {
            assert((0xF0u8 | ((v >> 18) & 0x7) as u8) >= 0xC0) by (bit_vector);
        }
        assert(is_hex_lower_char(ascii_lower_char(c)));
        let l = ascii_lower(s);
        let lr = ascii_lower(s.drop_first());
        assert forall|i: int| 0 <= i < l.len() implies is_hex_lower_char(#[trigger] l[i]) by {
            if i > 0 {
                assert(l[i] == lr[i - 1]);
            }
        }
    }
}

/// An ASCII `l`, in either case.
pub open spec fn is_l(c: char) -> bool {
    c == 'l' || c == 'L'
}

/// An ASCII `g`, in either case.
pub open spec fn is_g(c: char) -> bool {
    c == 'g' || c == 'G'
}

/// Every `l` of the text, in either case, is followed by a character that is
/// no `g`.
pub open spec fn l_safe(s: Seq<char>) -> bool {
    forall|i: int|
        0 <= i < s.len() && is_l(#[trigger] s[i]) ==> i + 1 < s.len() && !is_g(s[i + 1])
}

/// The same, one character at a time.
pub open spec fn l_safe_from(s: Seq<char>) -> bool
    decreases s.len(),
{
    if s.len() == 0 {
        true
    } else {
        (is_l(s[0]) ==> s.len() > 1 && !is_g(s[1])) && l_safe_from(s.drop_first())
    }
}

proof fn lemma_l_safe_from(s: Seq<char>)
    requires
        l_safe_from(s),
    ensures
        l_safe(s),
    decreases s.len(),
{
    if s.len() > 0 {
        let r = s.drop_first();
        lemma_l_safe_from(r);
        assert forall|i: int| 0 <= i < s.len() && is_l(#[trigger] s[i]) implies i + 1 < s.len()
            && !is_g(s[i + 1]) by {
            if i > 0 {
                assert(s[i] == r[i - 1]);
                assert(r[i] == s[i + 1]);
            }
        }
    }
}

proof fn lemma_l_safe_concat(a: Seq<char>, b: Seq<char>)
    requires
        l_safe(a),
        l_safe(b),
    ensures
        l_safe(a + b),
{
    assert forall|i: int| 0 <= i < (a + b).len() && is_l(#[trigger] (a + b)[i]) implies i + 1 < (a
        + b).len() && !is_g((a + b)[i + 1]) by {
        if i < a.len() {
            assert((a + b)[i] == a[i]);
            assert((a + b)[i + 1] == a[i + 1]);
        } else {
            assert((a + b)[i] == b[i - a.len()]);
            assert((a + b)[i + 1] == b[i + 1 - a.len()]);
        }
    }
}

proof fn lemma_hex_l_safe(s: Seq<char>)
    requires
        hex_text(s),
    ensures
        l_safe(s),
{
    assert forall|i: int| 0 <= i < s.len() && is_l(#[trigger] s[i]) implies i + 1 < s.len()
        && !is_g(s[i + 1]) by {
        assert(is_hex_lower_char(s[i]));
    }
}

/// `s` spells `w` from position `i`, letters taken in either case.
pub open spec fn spells_at(s: Seq<char>, w: Seq<char>, i: int) -> bool {
    &&& 0 <= i
    &&& i + w.len() <= s.len()
    &&& forall|t: int| 0 <= t < w.len() ==> ascii_lower_char(#[trigger] s[i + t]) == w[t]
}

/// The response line of an orientation whose digests are lowercase
/// hexadecimal spells `lgctoken` nowhere, in either case: the line carries no
/// token. `orient` hands out only such orientations.
#[verifier::rlimit(100)]
pub proof fn law_line_carries_no_token(o: ProjectWorkspaceOrientation, i: int)
    requires
        digests_are_hex(o),
    ensures
        !spells_at(encode_line_spec(o), "lgctoken"@, i),
{
    reveal_strlit("ESSMAI_Q_PROJECT_WORKSPACE_V165|route=");
    assert("ESSMAI_Q_PROJECT_WORKSPACE_V165|route="@ =~= seq!['E', 'S', 'S', 'M', 'A', 'I', '_', 'Q', '_', 'P', 'R', 'O', 'J', 'E', 'C', 'T', '_', 'W', 'O', 'R', 'K', 'S', 'P', 'A', 'C', 'E', '_', 'V', '1', '6', '5', '|', 'r', 'o', 'u', 't', 'e', '=']);
    assert(l_safe(seq!['E', 'S', 'S', 'M', 'A', 'I', '_', 'Q', '_', 'P', 'R', 'O', 'J', 'E', 'C', 'T', '_', 'W', 'O', 'R', 'K', 'S', 'P', 'A', 'C', 'E', '_', 'V', '1', '6', '5', '|', 'r', 'o', 'u', 't', 'e', '=']));
    reveal_strlit("|project_id=");
    assert("|project_id="@ =~= seq!['|', 'p', 'r', 'o', 'j', 'e', 'c', 't', '_', 'i', 'd', '=']);
    assert(l_safe(seq!['|', 'p', 'r', 'o', 'j', 'e', 'c', 't', '_', 'i', 'd', '=']));
    reveal_strlit("|project_trace_id=");
    assert("|project_trace_id="@ =~= seq!['|', 'p', 'r', 'o', 'j', 'e', 'c', 't', '_', 't', 'r', 'a', 'c', 'e', '_', 'i', 'd', '=']);
    assert(l_safe(seq!['|', 'p', 'r', 'o', 'j', 'e', 'c', 't', '_', 't', 'r', 'a', 'c', 'e', '_', 'i', 'd', '=']));
    reveal_strlit("|project_context_sha256=");
    assert("|project_context_sha256="@ =~= seq!['|', 'p', 'r', 'o', 'j', 'e', 'c', 't', '_', 'c', 'o', 'n', 't', 'e', 'x', 't', '_', 's', 'h', 'a', '2', '5', '6', '=']);
    assert(l_safe(seq!['|', 'p', 'r', 'o', 'j', 'e', 'c', 't', '_', 'c', 'o', 'n', 't', 'e', 'x', 't', '_', 's', 'h', 'a', '2', '5', '6', '=']));
    reveal_strlit("|request_sha256=");
    assert("|request_sha256="@ =~= seq!['|', 'r', 'e', 'q', 'u', 'e', 's', 't', '_', 's', 'h', 'a', '2', '5', '6', '=']);
    assert(l_safe(seq!['|', 'r', 'e', 'q', 'u', 'e', 's', 't', '_', 's', 'h', 'a', '2', '5', '6', '=']));
    reveal_strlit("|workspace_sha256=");
    assert("|workspace_sha256="@ =~= seq!['|', 'w', 'o', 'r', 'k', 's', 'p', 'a', 'c', 'e', '_', 's', 'h', 'a', '2', '5', '6', '=']);
    assert(l_safe(seq!['|', 'w', 'o', 'r', 'k', 's', 'p', 'a', 'c', 'e', '_', 's', 'h', 'a', '2', '5', '6', '=']));
    reveal_strlit("|material_sha256=");
    assert("|material_sha256="@ =~= seq!['|', 'm', 'a', 't', 'e', 'r', 'i', 'a', 'l', '_', 's', 'h', 'a', '2', '5', '6', '=']);
    assert(l_safe(seq!['|', 'm', 'a', 't', 'e', 'r', 'i', 'a', 'l', '_', 's', 'h', 'a', '2', '5', '6', '=']));
    reveal_strlit("|conversation_turn_sha256=");
    assert("|conversation_turn_sha256="@ =~= seq!['|', 'c', 'o', 'n', 'v', 'e', 'r', 's', 'a', 't', 'i', 'o', 'n', '_', 't', 'u', 'r', 'n', '_', 's', 'h', 'a', '2', '5', '6', '=']);
    assert(l_safe(seq!['|', 'c', 'o', 'n', 'v', 'e', 'r', 's', 'a', 't', 'i', 'o', 'n', '_', 't', 'u', 'r', 'n', '_', 's', 'h', 'a', '2', '5', '6', '=']));
    reveal_strlit("|legacy_route=--project-process-once|authority=NONE|token_policy=UNCHANGED\n");
    assert("|legacy_route=--project-process-once|authority=NONE|token_policy=UNCHANGED\n"@ =~= seq!['|', 'l', 'e', 'g', 'a', 'c', 'y', '_', 'r', 'o', 'u', 't', 'e', '=', '-', '-', 'p', 'r', 'o', 'j', 'e', 'c', 't', '-', 'p', 'r', 'o', 'c', 'e', 's', 's', '-', 'o', 'n', 'c', 'e', '|', 'a', 'u', 't', 'h', 'o', 'r', 'i', 't', 'y', '=', 'N', 'O', 'N', 'E', '|', 't', 'o', 'k', 'e', 'n', '_', 'p', 'o', 'l', 'i', 'c', 'y', '=', 'U', 'N', 'C', 'H', 'A', 'N', 'G', 'E', 'D', '\n']);
    assert(l_safe(seq!['|', 'l', 'e', 'g', 'a', 'c', 'y', '_', 'r', 'o', 'u', 't', 'e', '=', '-', '-', 'p', 'r', 'o', 'j', 'e', 'c', 't', '-', 'p', 'r', 'o', 'c', 'e', 's', 's', '-', 'o', 'n', 'c', 'e', '|', 'a', 'u', 't', 'h', 'o', 'r', 'i', 't', 'y', '=', 'N', 'O', 'N', 'E', '|', 't', 'o', 'k', 'e', 'n', '_', 'p', 'o', 'l', 'i', 'c', 'y', '=', 'U', 'N', 'C', 'H', 'A', 'N', 'G', 'E', 'D', '\n']));
    reveal_strlit("PROJECT_STORAGE");
    assert("PROJECT_STORAGE"@ =~= seq!['P', 'R', 'O', 'J', 'E', 'C', 'T', '_', 'S', 'T', 'O', 'R', 'A', 'G', 'E']);
    assert(l_safe(seq!['P', 'R', 'O', 'J', 'E', 'C', 'T', '_', 'S', 'T', 'O', 'R', 'A', 'G', 'E']));
    reveal_strlit("PROJECT_CONVERSATION");
    assert("PROJECT_CONVERSATION"@ =~= seq!['P', 'R', 'O', 'J', 'E', 'C', 'T', '_', 'C', 'O', 'N', 'V', 'E', 'R', 'S', 'A', 'T', 'I', 'O', 'N']);
    assert(l_safe(seq!['P', 'R', 'O', 'J', 'E', 'C', 'T', '_', 'C', 'O', 'N', 'V', 'E', 'R', 'S', 'A', 'T', 'I', 'O', 'N']));
    reveal_strlit("PROJECT_STORAGE_AND_CONVERSATION");
    assert("PROJECT_STORAGE_AND_CONVERSATION"@ =~= seq!['P', 'R', 'O', 'J', 'E', 'C', 'T', '_', 'S', 'T', 'O', 'R', 'A', 'G', 'E', '_', 'A', 'N', 'D', '_', 'C', 'O', 'N', 'V', 'E', 'R', 'S', 'A', 'T', 'I', 'O', 'N']);
    assert(l_safe(seq!['P', 'R', 'O', 'J', 'E', 'C', 'T', '_', 'S', 'T', 'O', 'R', 'A', 'G', 'E', '_', 'A', 'N', 'D', '_', 'C', 'O', 'N', 'V', 'E', 'R', 'S', 'A', 'T', 'I', 'O', 'N']));
    assert(l_safe(route_label(o.route)));
    lemma_hex_lower_text(o.project_id, 16);
    lemma_hex_lower_text(o.project_trace_id, 16);
    lemma_hex_l_safe(hex_lower(o.project_id, 16));
    lemma_hex_l_safe(hex_lower(o.project_trace_id, 16));
    lemma_hex_l_safe(o.project_context_sha256@);
    lemma_hex_l_safe(o.request_sha256@);
    lemma_hex_l_safe(o.workspace_sha256@);
    lemma_hex_l_safe(o.material_sha256@);
    lemma_hex_l_safe(o.conversation_turn_sha256@);
    let acc0 = "ESSMAI_Q_PROJECT_WORKSPACE_V165|route="@;
    lemma_l_safe_concat(acc0, route_label(o.route));
    let acc1 = acc0 + route_label(o.route);
    lemma_l_safe_concat(acc1, "|project_id="@);
    let acc2 = acc1 + "|project_id="@;
    lemma_l_safe_concat(acc2, hex_lower(o.project_id, 16));
    let acc3 = acc2 + hex_lower(o.project_id, 16);
    lemma_l_safe_concat(acc3, "|project_trace_id="@);
    let acc4 = acc3 + "|project_trace_id="@;
    lemma_l_safe_concat(acc4, hex_lower(o.project_trace_id, 16));
    let acc5 = acc4 + hex_lower(o.project_trace_id, 16);
    lemma_l_safe_concat(acc5, "|project_context_sha256="@);
    let acc6 = acc5 + "|project_context_sha256="@;
    lemma_l_safe_concat(acc6, o.project_context_sha256@);
    let acc7 = acc6 + o.project_context_sha256@;
    lemma_l_safe_concat(acc7, "|request_sha256="@);
    let acc8 = acc7 + "|request_sha256="@;
    lemma_l_safe_concat(acc8, o.request_sha256@);
    let acc9 = acc8 + o.request_sha256@;
    lemma_l_safe_concat(acc9, "|workspace_sha256="@);
    let acc10 = acc9 + "|workspace_sha256="@;
    lemma_l_safe_concat(acc10, o.workspace_sha256@);
    let acc11 = acc10 + o.workspace_sha256@;
    lemma_l_safe_concat(acc11, "|material_sha256="@);
    let acc12 = acc11 + "|material_sha256="@;
    lemma_l_safe_concat(acc12, o.material_sha256@);
    let acc13 = acc12 + o.material_sha256@;
    lemma_l_safe_concat(acc13, "|conversation_turn_sha256="@);
    let acc14 = acc13 + "|conversation_turn_sha256="@;
    lemma_l_safe_concat(acc14, o.conversation_turn_sha256@);
    let acc15 = acc14 + o.conversation_turn_sha256@;
    lemma_l_safe_concat(acc15, "|legacy_route=--project-process-once|authority=NONE|token_policy=UNCHANGED\n"@);
    let acc16 = acc15 + "|legacy_route=--project-process-once|authority=NONE|token_policy=UNCHANGED\n"@;
    assert(acc16 == encode_line_spec(o));
    let line = encode_line_spec(o);
    reveal_strlit("lgctoken");
    if spells_at(line, "lgctoken"@, i) {
        assert(ascii_lower_char(line[i + 0]) == 'l');
        assert(ascii_lower_char(line[i + 1]) == 'g');
        assert(is_l(line[i]));
        assert(is_g(line[i + 1]));
    }
}

} // verus!
