//! The protocol's data shapes, as far as the engine reads or writes them:
//! positions and ranges, document identifiers, capability documents, hover
//! and completion payloads, diagnostics.  Open-ended or server-defined
//! parts are held as raw JSON values.

use vstd::prelude::*;

use crate::json::Json;

verus! {

// ---------------------------------------------------------------------------
// Positions and text
// ---------------------------------------------------------------------------
/// A zero-based line/character position in a document.
pub struct Position {
    pub line: usize,
    pub character: usize,
}

pub struct Range {
    pub start: Position,
    pub end: Position,
}

/// A whole document as first opened: its uri, language, version and text.
pub struct TextDocumentItem {
    pub uri: String,
    pub language_id: String,
    pub version: i32,
    pub text: String,
}

pub struct TextDocumentIdentifier {
    pub uri: String,
}

pub struct VersionedTextDocumentIdentifier {
    pub uri: String,
    pub version: i32,
}

pub struct TextDocumentPositionParams {
    pub text_document: TextDocumentIdentifier,
    pub position: Position,
}

pub struct TextEdit {
    pub range: Range,
    pub new_text: String,
}

pub struct InsertReplaceEdit {
    pub new_text: String,
    pub insert: Range,
    pub replace: Range,
}

pub enum TextEditKind {
    TextEdit(TextEdit),
    InsertReplaceEdit(InsertReplaceEdit),
}

pub struct InsertReplaceRange {
    pub insert: Range,
    pub replace: Range,
}

pub enum EditRangeKind {
    Simple(Range),
    InsertReplace(InsertReplaceRange),
}

pub struct Location {
    pub uri: String,
    pub range: Range,
}

pub struct LocationLink {
    pub origin_selection_range: Option<Range>,
    pub target_uri: String,
    pub target_range: Range,
    pub target_selection_range: Range,
}

pub struct DocumentFilter {
    pub language: Option<String>,
    pub scheme: Option<String>,
    pub pattern: Option<String>,
}

pub struct ChangeAnnotation {
    pub label: String,
    pub needs_confirmation: Option<bool>,
    pub description: Option<String>,
}

pub struct AnnotatedTextEdit {
    pub range: Range,
    pub new_text: String,
    pub annotation_id: String,
}

pub struct TextDocumentEdit {
    pub text_document: TextDocumentIdentifier,
    pub edits: Vec<TextEdit>,
}

// ---------------------------------------------------------------------------
// Markup, hover
// ---------------------------------------------------------------------------
pub enum MarkupKind {
    PlainText,
    Markdown,
}

pub struct MarkupContent {
    pub kind: MarkupKind,
    pub value: String,
}

/// The payload of a hover reply, as far as the engine reads it.
pub struct Hover {
    pub contents: MarkupContent,
    pub range: Option<Range>,
}

// ---------------------------------------------------------------------------
// Completion
// ---------------------------------------------------------------------------
pub enum CompletionItemKind {
    Text,
    Method,
    Function,
    Constructor,
    Field,
    Variable,
    Class,
    Interface,
    Module,
    Property,
    Unit,
    Value,
    Enum,
    Keyword,
    Snippet,
    Color,
    File,
    Reference,
    Folder,
    EnumMember,
    Constant,
    Struct,
    Event,
    Operator,
    TypeParameter,
}

/// The numeric code of each completion item kind on the wire.
pub open spec fn completion_item_kind_code(k: CompletionItemKind) -> int {
    match k {
        CompletionItemKind::Text => 1,
        CompletionItemKind::Method => 2,
        CompletionItemKind::Function => 3,
        CompletionItemKind::Constructor => 4,
        CompletionItemKind::Field => 5,
        CompletionItemKind::Variable => 6,
        CompletionItemKind::Class => 7,
        CompletionItemKind::Interface => 8,
        CompletionItemKind::Module => 9,
        CompletionItemKind::Property => 10,
        CompletionItemKind::Unit => 11,
        CompletionItemKind::Value => 12,
        CompletionItemKind::Enum => 13,
        CompletionItemKind::Keyword => 14,
        CompletionItemKind::Snippet => 15,
        CompletionItemKind::Color => 16,
        CompletionItemKind::File => 17,
        CompletionItemKind::Reference => 18,
        CompletionItemKind::Folder => 19,
        CompletionItemKind::EnumMember => 20,
        CompletionItemKind::Constant => 21,
        CompletionItemKind::Struct => 22,
        CompletionItemKind::Event => 23,
        CompletionItemKind::Operator => 24,
        CompletionItemKind::TypeParameter => 25,
    }
}

impl CompletionItemKind {
    pub fn to_code(&self) -> (r: i32)
        ensures
            r as int == completion_item_kind_code(*self),
    {
        match self {
            CompletionItemKind::Text => 1,
            CompletionItemKind::Method => 2,
            CompletionItemKind::Function => 3,
            CompletionItemKind::Constructor => 4,
            CompletionItemKind::Field => 5,
            CompletionItemKind::Variable => 6,
            CompletionItemKind::Class => 7,
            CompletionItemKind::Interface => 8,
            CompletionItemKind::Module => 9,
            CompletionItemKind::Property => 10,
            CompletionItemKind::Unit => 11,
            CompletionItemKind::Value => 12,
            CompletionItemKind::Enum => 13,
            CompletionItemKind::Keyword => 14,
            CompletionItemKind::Snippet => 15,
            CompletionItemKind::Color => 16,
            CompletionItemKind::File => 17,
            CompletionItemKind::Reference => 18,
            CompletionItemKind::Folder => 19,
            CompletionItemKind::EnumMember => 20,
            CompletionItemKind::Constant => 21,
            CompletionItemKind::Struct => 22,
            CompletionItemKind::Event => 23,
            CompletionItemKind::Operator => 24,
            CompletionItemKind::TypeParameter => 25,
        }
    }

    /// The kind with code `v`; codes outside 1 to 25 name no kind.
    pub fn from_code(v: i32) -> (r: Option<CompletionItemKind>)
        ensures
            match r {
                Some(k) => completion_item_kind_code(k) == v as int,
                None => !(1 <= v as int <= 25),
            },
    {
        match v {
            1 => Some(CompletionItemKind::Text),
            2 => Some(CompletionItemKind::Method),
            3 => Some(CompletionItemKind::Function),
            4 => Some(CompletionItemKind::Constructor),
            5 => Some(CompletionItemKind::Field),
            6 => Some(CompletionItemKind::Variable),
            7 => Some(CompletionItemKind::Class),
            8 => Some(CompletionItemKind::Interface),
            9 => Some(CompletionItemKind::Module),
            10 => Some(CompletionItemKind::Property),
            11 => Some(CompletionItemKind::Unit),
            12 => Some(CompletionItemKind::Value),
            13 => Some(CompletionItemKind::Enum),
            14 => Some(CompletionItemKind::Keyword),
            15 => Some(CompletionItemKind::Snippet),
            16 => Some(CompletionItemKind::Color),
            17 => Some(CompletionItemKind::File),
            18 => Some(CompletionItemKind::Reference),
            19 => Some(CompletionItemKind::Folder),
            20 => Some(CompletionItemKind::EnumMember),
            21 => Some(CompletionItemKind::Constant),
            22 => Some(CompletionItemKind::Struct),
            23 => Some(CompletionItemKind::Event),
            24 => Some(CompletionItemKind::Operator),
            25 => Some(CompletionItemKind::TypeParameter),
            _ => None,
        }
    }
}

pub enum CompletionItemTagKind {
    Deprecated,
}

pub enum InsertTextMode {
    AsIs,
    AdjustIndentation,
}

pub enum InsertTextFormat {
    PlainText,
    Snippet,
}

pub enum CompletionItemDocumentationKind {
    Simple(String),
    Markup(MarkupContent),
}

pub struct CompletionItemLabelDetails {
    pub detail: Option<String>,
    pub description: Option<String>,
}

/// One completion the server offers, in the fields the engine keeps.
pub struct CompletionItem {
    pub label: String,
    pub label_details: Option<CompletionItemLabelDetails>,
    pub kind: Option<CompletionItemKind>,
    pub detail: Option<String>,
    pub documentation: Option<CompletionItemDocumentationKind>,
    pub deprecated: Option<bool>,
    pub preselect: Option<bool>,
    pub sort_text: Option<String>,
    pub filter_text: Option<String>,
    pub insert_text: Option<String>,
    pub insert_text_format: Option<InsertTextFormat>,
    pub insert_text_mode: Option<InsertTextMode>,
    pub text_edit: Option<TextEditKind>,
    pub text_edit_text: Option<String>,
    pub additional_text_edits: Option<Vec<TextEdit>>,
    pub commit_characters: Option<Vec<String>>,
    pub data: Option<Json>,
}

impl CompletionItem {
    /// A completion holding nothing but its label.
    pub fn with_label(label: String) -> (r: CompletionItem)
        ensures
            r.label == label,
            r.kind is None,
            r.detail is None,
            r.insert_text is None,
    {
        CompletionItem {
            label,
            label_details: None,
            kind: None,
            detail: None,
            documentation: None,
            deprecated: None,
            preselect: None,
            sort_text: None,
            filter_text: None,
            insert_text: None,
            insert_text_format: None,
            insert_text_mode: None,
            text_edit: None,
            text_edit_text: None,
            additional_text_edits: None,
            commit_characters: None,
            data: None,
        }
    }
}

pub struct ItemDefaults {
    pub commit_characters: Option<Vec<String>>,
    pub edit_range: Option<EditRangeKind>,
    pub insert_text_format: Option<InsertTextFormat>,
    pub insert_text_mode: Option<InsertTextMode>,
    pub data: Option<Json>,
}

pub struct CompletionList {
    pub is_incomplete: bool,
    pub items: Vec<CompletionItem>,
    pub item_defaults: Option<ItemDefaults>,
}

// ---------------------------------------------------------------------------
// Diagnostics
// ---------------------------------------------------------------------------
pub enum DiagnosticSeverity {
    Error,
    Warning,
    Information,
    Hint,
}

pub open spec fn diagnostic_severity_code(s: DiagnosticSeverity) -> int {
    match s {
        DiagnosticSeverity::Error => 1,
        DiagnosticSeverity::Warning => 2,
        DiagnosticSeverity::Information => 3,
        DiagnosticSeverity::Hint => 4,
    }
}

impl DiagnosticSeverity {
    pub fn to_code(&self) -> (r: i32)
        ensures
            r as int == diagnostic_severity_code(*self),
    {
        match self {
            DiagnosticSeverity::Error => 1,
            DiagnosticSeverity::Warning => 2,
            DiagnosticSeverity::Information => 3,
            DiagnosticSeverity::Hint => 4,
        }
    }

    /// The severity with code `v`; codes outside 1 to 4 name none.
    pub fn from_code(v: i32) -> (r: Option<DiagnosticSeverity>)
        ensures
            match r {
                Some(s) => diagnostic_severity_code(s) == v as int,
                None => !(1 <= v as int <= 4),
            },
    {
        match v {
            1 => Some(DiagnosticSeverity::Error),
            2 => Some(DiagnosticSeverity::Warning),
            3 => Some(DiagnosticSeverity::Information),
            4 => Some(DiagnosticSeverity::Hint),
            _ => None,
        }
    }
}

pub enum DiagnosticTag {
    Unnecessary,
    Deprecated,
}

pub struct DiagnosticRelatedInformation {
    pub location: Location,
    pub message: String,
}

pub struct CodeDescription {
    pub href: String,
}

/// One diagnostic the server published for a document.
pub struct Diagnostic {
    pub range: Range,
    pub severity: Option<DiagnosticSeverity>,
    pub code: Option<i64>,
    pub code_description: Option<CodeDescription>,
    pub source: Option<String>,
    pub message: String,
    pub tags: Option<Vec<DiagnosticTag>>,
    pub related_information: Option<Vec<DiagnosticRelatedInformation>>,
    pub data: Option<Json>,
}

// ---------------------------------------------------------------------------
// Document synchronization payloads
// ---------------------------------------------------------------------------
pub enum TextDocumentSyncKind {
    NoSync,
    Full,
    Incremental,
}

pub struct FullTextDocumentContentChangeEvent {
    pub text: String,
}

pub struct IncrementalTextDocumentContentChangeEvent {
    pub range: Range,
    pub text: String,
    pub range_length: Option<usize>,
}

pub enum TextDocumentContentChangeEvent {
    Full(FullTextDocumentContentChangeEvent),
    Incremental(IncrementalTextDocumentContentChangeEvent),
}

pub struct DidChangeTextDocumentParams {
    pub text_document: VersionedTextDocumentIdentifier,
    pub content_changes: Vec<TextDocumentContentChangeEvent>,
}

pub struct DidSaveTextDocumentParams {
    pub text_document: TextDocumentIdentifier,
    pub text: Option<String>,
}

// ---------------------------------------------------------------------------
// Client capabilities: what this engine announces on initialize
// ---------------------------------------------------------------------------
pub struct ClientInfo {
    pub name: String,
    pub version: Option<String>,
}

pub struct WorkspaceFolder {
    pub uri: String,
    pub name: String,
}

pub enum TraceValue {
    Off,
    Messages,
    Verbose,
}

pub enum PositionEncodingKind {
    Utf8,
    Utf16,
    Utf32,
}

pub struct TextDocumentSyncClientCapabilities {
    pub dynamic_registration: Option<bool>,
    pub will_save: Option<bool>,
    pub will_save_until: Option<bool>,
    pub did_save: Option<bool>,
}

pub struct HoverClientCapabilities {
    pub dynamic_registration: Option<bool>,
    pub content_format: Option<Vec<MarkupKind>>,
}

pub struct TagSupport {
    pub value_set: Vec<CompletionItemTagKind>,
}

pub struct ResolveSupport {
    pub properties: Vec<String>,
}

pub struct InsertTextModeSupport {
    pub value_set: Vec<InsertTextMode>,
}

pub struct CompletionItemCapability {
    pub snippet_support: Option<bool>,
    pub commit_characters_support: Option<bool>,
    pub documentation_format: Option<Vec<MarkupKind>>,
    pub deprecated_support: Option<bool>,
    pub preselect_support: Option<bool>,
    pub tag_support: Option<TagSupport>,
    pub insert_replace_support: Option<bool>,
    pub resolve_support: Option<ResolveSupport>,
    pub insert_text_mode_support: Option<InsertTextModeSupport>,
    pub label_details_support: Option<bool>,
}

pub struct CompletionListCapability {
    pub item_defaults: Option<Vec<String>>,
}

pub struct CompletionClientCapabilities {
    pub dynamic_registration: Option<bool>,
    pub completion_item: Option<CompletionItemCapability>,
    pub context_support: Option<bool>,
    pub insert_text_mode: Option<InsertTextMode>,
    pub completion_list: Option<CompletionListCapability>,
}

pub struct PublishDiagnosticsClientCapabilities {
    pub related_information: Option<bool>,
    pub tag_support: Option<TagSupport>,
    pub version_support: Option<bool>,
    pub code_description_support: Option<bool>,
    pub data_support: Option<bool>,
}

pub struct TextDocumentClientCapabilities {
    pub hover: Option<HoverClientCapabilities>,
    pub completion: Option<CompletionClientCapabilities>,
    pub synchronization: Option<TextDocumentSyncClientCapabilities>,
    pub publish_diagnostics: Option<PublishDiagnosticsClientCapabilities>,
}

pub struct ClientCapabilities {
    pub text_document: Option<TextDocumentClientCapabilities>,
    pub experimental: Option<Json>,
}

pub struct InitializeParams {
    pub process_id: Option<i64>,
    pub client_info: Option<ClientInfo>,
    pub locale: Option<String>,
    pub root_uri: Option<String>,
    pub initialization_options: Option<Json>,
    pub capabilities: ClientCapabilities,
    pub trace: Option<TraceValue>,
    pub workspace_folders: Option<Vec<WorkspaceFolder>>,
}

pub struct ServerInfo {
    pub name: String,
    pub version: Option<String>,
}

/// The negotiated feature set: kept as the raw capabilities document the
/// server returned, read-only after the handshake.
pub struct ServerCapabilities {
    pub document: Json,
}

pub struct InitializeResult {
    pub capabilities: ServerCapabilities,
    pub server_info: Option<ServerInfo>,
}

// ---------------------------------------------------------------------------
// Server capabilities and the wider capability catalogue
// ---------------------------------------------------------------------------
pub struct WorkDoneProgressOptions {
    pub work_done_progress: Option<bool>,
}

pub struct HoverOptions {
    pub work_done_progress: Option<bool>,
}

pub enum HoverProviderCapability {
    Simple(bool),
    Options(HoverOptions),
}

pub struct SignatureHelpOptions {
    pub work_done_progress: Option<bool>,
    pub trigger_characters: Option<Vec<String>>,
    pub retrigger_characters: Option<Vec<String>>,
}

pub struct DeclarationOptions {
    pub work_done_progress: Option<bool>,
}

pub enum DeclarationProviderCapability {
    Simple(bool),
    Options(DeclarationOptions),
}

pub struct DefinitionOptions {
    pub work_done_progress: Option<bool>,
}

pub enum DefinitionProviderCapability {
    Simple(bool),
    Options(DefinitionOptions),
}

pub struct TypeDefinitionOptions {
    pub work_done_progress: Option<bool>,
}

pub enum TypeDefinitionProviderCapability {
    Simple(bool),
    Options(TypeDefinitionOptions),
}

pub struct ImplementationOptions {
    pub work_done_progress: Option<bool>,
}

pub enum ImplementationProviderCapability {
    Simple(bool),
    Options(ImplementationOptions),
}

pub struct ReferenceOptions {
    pub work_done_progress: Option<bool>,
}

pub enum ReferencesProviderCapability {
    Simple(bool),
    Options(ReferenceOptions),
}

pub struct DocumentHighlightOptions {
    pub work_done_progress: Option<bool>,
}

pub enum DocumentHighlightProviderCapability {
    Simple(bool),
    Options(DocumentHighlightOptions),
}

pub struct DocumentSymbolOptions {
    pub work_done_progress: Option<bool>,
}

pub enum DocumentSymbolProviderCapability {
    Simple(bool),
    Options(DocumentSymbolOptions),
}

pub struct CodeActionOptions {
    pub work_done_progress: Option<bool>,
    pub code_action_kinds: Option<Vec<String>>,
    pub resolve_provider: Option<bool>,
}

pub enum CodeActionProviderCapability {
    Simple(bool),
    Options(CodeActionOptions),
}

pub struct CodeLensOptions {
    pub work_done_progress: Option<bool>,
    pub resolve_provider: Option<bool>,
}

pub struct DocumentLinkOptions {
    pub work_done_progress: Option<bool>,
    pub resolve_provider: Option<bool>,
}

pub struct DocumentColorOptions {
    pub work_done_progress: Option<bool>,
}

pub enum ColorProviderCapability {
    Simple(bool),
    Options(DocumentColorOptions),
}

pub struct DocumentFormattingOptions {
    pub work_done_progress: Option<bool>,
}

pub enum DocumentFormattingProviderCapability {
    Simple(bool),
    Options(DocumentFormattingOptions),
}

pub struct DocumentRangeFormattingOptions {
    pub work_done_progress: Option<bool>,
}

pub enum DocumentRangeFormattingProviderCapability {
    Simple(bool),
    Options(DocumentRangeFormattingOptions),
}

pub struct DocumentOnTypeFormattingOptions {
    pub first_trigger_character: String,
    pub more_trigger_character: Option<Vec<String>>,
}

pub struct RenameOptions {
    pub work_done_progress: Option<bool>,
    pub prepare_provider: Option<bool>,
}

pub enum RenameProviderCapability {
    Simple(bool),
    Options(RenameOptions),
}

pub struct FoldingRangeOptions {
    pub work_done_progress: Option<bool>,
}

pub enum FoldingRangeProviderCapability {
    Simple(bool),
    Options(FoldingRangeOptions),
}

pub struct ExecuteCommandOptions {
    pub work_done_progress: Option<bool>,
    pub commands: Vec<String>,
}

pub struct SelectionRangeOptions {
    pub work_done_progress: Option<bool>,
}

pub enum SelectionRangeProviderCapability {
    Simple(bool),
    Options(SelectionRangeOptions),
}

pub struct LinkedEditingRangeOptions {
    pub work_done_progress: Option<bool>,
}

pub enum LinkedEditingRangeProviderCapability {
    Simple(bool),
    Options(LinkedEditingRangeOptions),
}

pub struct SemanticTokensLegend {
    pub token_types: Vec<String>,
    pub token_modifiers: Vec<String>,
}

pub struct SemanticTokensFull {
    pub delta: Option<bool>,
}

pub struct SemanticTokensOptions {
    pub legend: SemanticTokensLegend,
    pub work_done_progress: Option<bool>,
    pub range: Option<bool>,
    pub full: Option<SemanticTokensFull>,
}

pub struct MonikerOptions {
    pub work_done_progress: Option<bool>,
}

pub enum MonikerProviderCapability {
    Simple(bool),
    Options(MonikerOptions),
}

pub struct TypeHierarchyOptions {
    pub work_done_progress: Option<bool>,
}

pub enum TypeHierarchyProviderCapability {
    Simple(bool),
    Options(TypeHierarchyOptions),
}

pub struct InlineValueOptions {
    pub work_done_progress: Option<bool>,
}

pub enum InlineValueProviderCapability {
    Simple(bool),
    Options(InlineValueOptions),
}

pub struct InlayHintOptions {
    pub work_done_progress: Option<bool>,
    pub resolve_provider: Option<bool>,
}

pub struct TextDocumentRegistrationOptions {
    pub document_selector: Option<Vec<DocumentFilter>>,
}

pub struct StaticRegistrationOptions {
    pub id: Option<String>,
}

pub struct DiagnosticOptions {
    pub work_done_progress: Option<bool>,
    pub identifier: Option<String>,
    pub inter_file_dependencies: bool,
    pub workspace_diagnostics: bool,
}

pub struct DiagnosticRegistrationOptions {
    pub text_document_registration_options: TextDocumentRegistrationOptions,
    pub diagnostic_options: DiagnosticOptions,
    pub static_registration_options: StaticRegistrationOptions,
}

pub enum DiagnosticProviderCapability {
    Options(DiagnosticOptions),
    RegistrationOptions(DiagnosticRegistrationOptions),
}

pub struct WorkspaceSymbolOptions {
    pub work_done_progress: Option<bool>,
    pub resolve_provider: Option<bool>,
}

pub enum WorkspaceSymbolProviderCapability {
    Simple(bool),
    Options(WorkspaceSymbolOptions),
}

pub enum ChangeNotificationsCapability {
    Simple(bool),
    Id(String),
}

pub struct WorkspaceFoldersServerCapabilities {
    pub supported: Option<bool>,
    pub change_notifications: Option<ChangeNotificationsCapability>,
}

pub struct FileOperationPatternOptions {
    pub ignore_case: Option<bool>,
}

pub enum FileOperationPatternKind {
    File,
    Folder,
}

pub struct FileOperationPattern {
    pub glob: String,
    pub matches: Option<String>,
    pub options: Option<FileOperationPatternOptions>,
}

pub struct FileOperationFilter {
    pub scheme: Option<String>,
    pub pattern: FileOperationPattern,
}

pub struct FileOperationRegistrationOptions {
    pub filters: Vec<FileOperationFilter>,
}

pub struct FileOperationsServerCapabilities {
    pub did_create: Option<FileOperationRegistrationOptions>,
    pub will_create: Option<FileOperationRegistrationOptions>,
    pub did_rename: Option<FileOperationRegistrationOptions>,
    pub will_rename: Option<FileOperationRegistrationOptions>,
    pub did_delete: Option<FileOperationRegistrationOptions>,
    pub will_delete: Option<FileOperationRegistrationOptions>,
}

pub struct WorkspaceServerCapabilities {
    pub workspace_folders: Option<WorkspaceFoldersServerCapabilities>,
    pub file_operations: Option<FileOperationsServerCapabilities>,
}

pub struct SaveOptions {
    pub include_text: Option<bool>,
}

pub enum TextDocumentSyncSaveOptions {
    Simple(bool),
    Options(SaveOptions),
}

pub struct TextDocumentSyncOptions {
    pub open_close: Option<bool>,
    pub change: Option<TextDocumentSyncKind>,
    pub will_save: Option<bool>,
    pub will_save_wait_until: Option<bool>,
    pub save: Option<TextDocumentSyncSaveOptions>,
}

pub struct CompletionOptionsCompletionItem {
    pub label_details_support: Option<bool>,
}

pub struct CompletionOptions {
    pub work_done_progress: Option<bool>,
    pub trigger_characters: Option<Vec<String>>,
    pub all_commit_characters: Option<Vec<String>>,
    pub resolve_provider: Option<bool>,
    pub completion_item: Option<CompletionOptionsCompletionItem>,
}

// ---------------------------------------------------------------------------
// Workspace edits and file operations
// ---------------------------------------------------------------------------
pub struct CreateFileOptions {
    pub overwrite: Option<bool>,
    pub ignore_if_exists: Option<bool>,
}

pub struct CreateFile {
    pub kind: String,
    pub uri: String,
    pub options: Option<CreateFileOptions>,
    pub annotation_id: Option<String>,
}

pub struct RenameFileOptions {
    pub overwrite: Option<bool>,
    pub ignore_if_exists: Option<bool>,
}

pub struct RenameFile {
    pub kind: String,
    pub old_uri: String,
    pub new_uri: String,
    pub options: Option<RenameFileOptions>,
    pub annotation_id: Option<String>,
}

pub struct DeleteFileOptions {
    pub recursive: Option<bool>,
    pub ignore_if_not_exists: Option<bool>,
}

pub struct DeleteFile {
    pub kind: String,
    pub uri: String,
    pub options: Option<DeleteFileOptions>,
    pub annotation_id: Option<String>,
}

pub enum DocumentChangeOperation {
    TextDocumentEdit(TextDocumentEdit),
    CreateFile(CreateFile),
    RenameFile(RenameFile),
    DeleteFile(DeleteFile),
}

pub enum DocumentChanges {
    TextDocumentEdits(Vec<TextDocumentEdit>),
    Operations(Vec<DocumentChangeOperation>),
}

/// A workspace-wide edit; the per-document changes are keyed by uri.
pub struct WorkspaceEdit {
    pub changes: Option<Vec<(String, Vec<TextEdit>)>>,
    pub document_changes: Option<DocumentChanges>,
    pub change_annotations: Option<Vec<(String, ChangeAnnotation)>>,
}

pub enum ResourceOperationKind {
    Create,
    Rename,
    Delete,
}

pub enum FailureHandlingKind {
    Abort,
    Transactional,
    Undo,
    TextOnlyTransactional,
}

pub struct WorkspaceEditClientCapabilities {
    pub document_changes: Option<bool>,
    pub resource_operations: Option<ResourceOperationKind>,
    pub failure_handling: Option<FailureHandlingKind>,
}

// ---------------------------------------------------------------------------
// The wider client-capability catalogue
// ---------------------------------------------------------------------------
pub struct MarkdownClientCapabilities {
    pub parser: String,
    pub version: Option<String>,
    pub allowed_tags: Option<Vec<String>>,
}

pub struct RegularExpressionsClientCapabilities {
    pub engine: String,
    pub version: Option<String>,
}

pub struct StaleRequestSupportClientCapabilities {
    pub cancel: bool,
    pub retry_on_content_modified: Vec<String>,
}

pub struct GeneralClientCapabilities {
    pub stale_request_support: Option<StaleRequestSupportClientCapabilities>,
    pub regular_expressions: Option<RegularExpressionsClientCapabilities>,
    pub markdown: Option<MarkdownClientCapabilities>,
    pub position_encodings: Option<Vec<PositionEncodingKind>>,
}

pub struct DidChangeConfigurationClientCapabilities {
    pub dynamic_registration: Option<bool>,
}

pub struct DidChangeWatchedFilesClientCapabilities {
    pub dynamic_registration: Option<bool>,
    pub relative_pattern_support: Option<bool>,
}

pub struct ExecuteCommandClientCapabilities {
    pub dynamic_registration: Option<bool>,
}

pub struct SemanticTokensWorkspaceClientCapabilities {
    pub refresh_support: Option<bool>,
}

pub struct CodeLensWorkspaceClientCapabilities {
    pub refresh_support: Option<bool>,
}

pub struct InlineValueWorkspaceClientCapabilities {
    pub refresh_support: Option<bool>,
}

pub struct InlayHintWorkspaceClientCapabilities {
    pub refresh_support: Option<bool>,
}

pub struct DiagnosticWorkspaceClientCapabilities {
    pub refresh_support: Option<bool>,
}

pub enum SymbolKind {
    File,
    Module,
    Namespace,
    Package,
    Class,
    Method,
    Property,
    Field,
    Constructor,
    Enum,
    Interface,
    Function,
    Variable,
    Constant,
    Text,
    Number,
    Boolean,
    Array,
    Object,
    Key,
    Null,
    EnumMember,
    Struct,
    Event,
    Operator,
    TypeParameter,
}

/// The numeric code of each symbol kind on the wire.
pub open spec fn symbol_kind_code(k: SymbolKind) -> int {
    match k {
        SymbolKind::File => 1,
        SymbolKind::Module => 2,
        SymbolKind::Namespace => 3,
        SymbolKind::Package => 4,
        SymbolKind::Class => 5,
        SymbolKind::Method => 6,
        SymbolKind::Property => 7,
        SymbolKind::Field => 8,
        SymbolKind::Constructor => 9,
        SymbolKind::Enum => 10,
        SymbolKind::Interface => 11,
        SymbolKind::Function => 12,
        SymbolKind::Variable => 13,
        SymbolKind::Constant => 14,
        SymbolKind::Text => 15,
        SymbolKind::Number => 16,
        SymbolKind::Boolean => 17,
        SymbolKind::Array => 18,
        SymbolKind::Object => 19,
        SymbolKind::Key => 20,
        SymbolKind::Null => 21,
        SymbolKind::EnumMember => 22,
        SymbolKind::Struct => 23,
        SymbolKind::Event => 24,
        SymbolKind::Operator => 25,
        SymbolKind::TypeParameter => 26,
    }
}

impl SymbolKind {
    pub fn to_code(&self) -> (r: i32)
        ensures
            r as int == symbol_kind_code(*self),
    {
        match self {
            SymbolKind::File => 1,
            SymbolKind::Module => 2,
            SymbolKind::Namespace => 3,
            SymbolKind::Package => 4,
            SymbolKind::Class => 5,
            SymbolKind::Method => 6,
            SymbolKind::Property => 7,
            SymbolKind::Field => 8,
            SymbolKind::Constructor => 9,
            SymbolKind::Enum => 10,
            SymbolKind::Interface => 11,
            SymbolKind::Function => 12,
            SymbolKind::Variable => 13,
            SymbolKind::Constant => 14,
            SymbolKind::Text => 15,
            SymbolKind::Number => 16,
            SymbolKind::Boolean => 17,
            SymbolKind::Array => 18,
            SymbolKind::Object => 19,
            SymbolKind::Key => 20,
            SymbolKind::Null => 21,
            SymbolKind::EnumMember => 22,
            SymbolKind::Struct => 23,
            SymbolKind::Event => 24,
            SymbolKind::Operator => 25,
            SymbolKind::TypeParameter => 26,
        }
    }
}

pub struct SymbolKindCapability {
    pub value_set: Option<Vec<SymbolKind>>,
}

pub struct WorkspaceSymbolClientCapabilities {
    pub dynamic_registration: Option<bool>,
    pub symbol_kind: Option<SymbolKindCapability>,
}

pub struct FileOperationsWorkspaceClientCapabilities {
    pub dynamic_registration: Option<bool>,
    pub did_create: Option<bool>,
    pub will_create: Option<bool>,
    pub did_rename: Option<bool>,
    pub will_rename: Option<bool>,
    pub did_delete: Option<bool>,
    pub will_delete: Option<bool>,
}

pub struct WorkspaceClientCapabilities {
    pub apply_edit: Option<bool>,
    pub workspace_edit: Option<WorkspaceEditClientCapabilities>,
    pub did_change_configuration: Option<DidChangeConfigurationClientCapabilities>,
    pub did_change_watched_files: Option<DidChangeWatchedFilesClientCapabilities>,
    pub symbol: Option<WorkspaceSymbolClientCapabilities>,
    pub execute_command: Option<ExecuteCommandClientCapabilities>,
    pub workspace_folders: Option<bool>,
    pub configuration: Option<bool>,
    pub semantic_tokens: Option<SemanticTokensWorkspaceClientCapabilities>,
    pub code_lens: Option<CodeLensWorkspaceClientCapabilities>,
    pub file_operations: Option<FileOperationsWorkspaceClientCapabilities>,
    pub inline_value: Option<InlineValueWorkspaceClientCapabilities>,
    pub inlay_hint: Option<InlayHintWorkspaceClientCapabilities>,
    pub diagnostics: Option<DiagnosticWorkspaceClientCapabilities>,
}

pub struct MessageActionItem {
    pub additional_properties_support: Option<bool>,
}

pub struct ShowMessageRequestClientCapabilities {
    pub message_action_item: Option<MessageActionItem>,
}

pub struct ShowDocumentClientCapabilities {
    pub support: Option<bool>,
}

pub struct WindowClientCapabilities {
    pub work_done_progress: Option<bool>,
    pub show_message: Option<ShowMessageRequestClientCapabilities>,
    pub show_document: Option<ShowDocumentClientCapabilities>,
}

pub struct CompletionItemKindCapability {
    pub value_set: Option<Vec<CompletionItemKind>>,
}

} // verus!
