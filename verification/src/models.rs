//! Data models: locally declared (desired) state read from the declaration
//! document, and the remote service's reported state. All fields are plain
//! values; (de)serialization to the wire formats lives outside the library.

use vstd::prelude::*;

verus! {

// Declaration document (desired state)
// -------------------------------------------------------------------------

/// The whole declaration document: one entry per program.
pub struct YamlConfig {
    pub programs: Vec<ProgramsConfig>,
}

/// One program's declared resources.
pub struct ProgramsConfig {
    pub id: u32,
    pub environments: Option<Vec<EnvironmentsConfig>>,
    pub pipelines: Option<Vec<PipelinesConfig>>,
    pub certificates: Option<Vec<CertificateConfig>>,
}

/// A declared domain name binding.
pub struct DomainConfig {
    pub domainname: String,
    pub certificate_id: i64,
}

/// One environment's declared variables and domains.
pub struct EnvironmentsConfig {
    pub id: u32,
    pub variables: Vec<EnvironmentVariable>,
    pub domains: Option<Vec<DomainConfig>>,
}

/// One pipeline's declared variables.
pub struct PipelinesConfig {
    pub id: u32,
    pub variables: Vec<PipelineVariable>,
}

/// A declared certificate: a name, an optional stable id, and three file
/// references (certificate, chain, private key), resolved against the
/// declaration document's directory.
pub struct CertificateConfig {
    pub name: String,
    pub id: Option<i64>,
    pub certificate: String,
    pub chain: String,
    pub key: String,
}

// Variables
// -------------------------------------------------------------------------

/// Possible types that a variable can have.
#[derive(Clone, Copy, Debug, PartialEq, Eq, Structural)]
pub enum VariableType {
    String,
    SecretString,
}

/// The wire label of a variable type.
pub open spec fn spec_variable_type_label(t: VariableType) -> Seq<char> {
    match t {
        VariableType::String => "string"@,
        VariableType::SecretString => "secretString"@,
    }
}

/// The variable type a wire label denotes, if any.
pub open spec fn spec_variable_type_of_label(s: Seq<char>) -> Option<VariableType> {
    if s == "string"@ {
        Some(VariableType::String)
    } else if s == "secretString"@ {
        Some(VariableType::SecretString)
    } else {
        None
    }
}

impl VariableType {
    /// The label under which this type appears on the wire.
    pub fn label(&self) -> (r: &'static str)
        ensures
            r@ == spec_variable_type_label(*self),
    {
        match self {
            VariableType::String => "string",
            VariableType::SecretString => "secretString",
        }
    }

    /// Reads a wire label; any label but the two known ones is rejected.
    pub fn from_label(label: &str) -> (r: Option<VariableType>)
        ensures
            r == spec_variable_type_of_label(label@),
    {
        if crate::strutil::str_eq(label, "string") {
            Some(VariableType::String)
        } else if crate::strutil::str_eq(label, "secretString") {
            Some(VariableType::SecretString)
        } else {
            None
        }
    }
}

/// Possible service types that an environment variable can have.
#[derive(Clone, Copy, Debug, PartialEq, Eq, Structural)]
pub enum EnvironmentVariableServiceType {
    All,
    Author,
    Publish,
    Preview,
    Invalid,
}

/// The service type an environment variable's wire label denotes. An empty
/// label means "all services"; an unrecognized one is kept as `Invalid`.
pub open spec fn spec_env_service_of_label(s: Seq<char>) -> EnvironmentVariableServiceType {
    if s.len() == 0 {
        EnvironmentVariableServiceType::All
    } else if s == "author"@ {
        EnvironmentVariableServiceType::Author
    } else if s == "publish"@ {
        EnvironmentVariableServiceType::Publish
    } else if s == "preview"@ {
        EnvironmentVariableServiceType::Preview
    } else {
        EnvironmentVariableServiceType::Invalid
    }
}

/// The wire label of an environment variable's service type.
pub open spec fn spec_env_service_label(t: EnvironmentVariableServiceType) -> Seq<char> {
    match t {
        EnvironmentVariableServiceType::All => "all"@,
        EnvironmentVariableServiceType::Author => "author"@,
        EnvironmentVariableServiceType::Publish => "publish"@,
        EnvironmentVariableServiceType::Preview => "preview"@,
        EnvironmentVariableServiceType::Invalid => "invalid"@,
    }
}

impl EnvironmentVariableServiceType {
    /// The service type used when the declaration names none.
    pub fn default() -> (t: Self)
        ensures
            t == EnvironmentVariableServiceType::All,
    {
        EnvironmentVariableServiceType::All
    }

    /// Reads a wire label. An empty label stands for `All`; an unrecognized
    /// label is kept as `Invalid` rather than rejected.
    pub fn from_label(label: &str) -> (t: Self)
        ensures
            t == spec_env_service_of_label(label@),
    {
        if label.is_empty() {
            EnvironmentVariableServiceType::All
        } else if crate::strutil::str_eq(label, "author") {
            EnvironmentVariableServiceType::Author
        } else if crate::strutil::str_eq(label, "publish") {
            EnvironmentVariableServiceType::Publish
        } else if crate::strutil::str_eq(label, "preview") {
            EnvironmentVariableServiceType::Preview
        } else {
            EnvironmentVariableServiceType::Invalid
        }
    }

    /// The label under which this service type appears on the wire.
    pub fn label(&self) -> (r: &'static str)
        ensures
            r@ == spec_env_service_label(*self),
    {
        match self {
            EnvironmentVariableServiceType::All => "all",
            EnvironmentVariableServiceType::Author => "author",
            EnvironmentVariableServiceType::Publish => "publish",
            EnvironmentVariableServiceType::Preview => "preview",
            EnvironmentVariableServiceType::Invalid => "invalid",
        }
    }
}

/// The default service type is not written back to the wire.
pub fn env_var_service_type_is_default(t: &EnvironmentVariableServiceType) -> (r: bool)
    ensures
        r == (*t == EnvironmentVariableServiceType::All),
{
    *t == EnvironmentVariableServiceType::All
}

/// The default service type is not written back to the wire.
pub fn environment_variable_skip_serializing(t: &EnvironmentVariableServiceType) -> (r: bool)
    ensures
        r == (*t == EnvironmentVariableServiceType::All),
{
    *t == EnvironmentVariableServiceType::All
}

/// Possible service types that a pipeline variable can have.
#[derive(Clone, Copy, Debug, PartialEq, Eq, Structural)]
pub enum PipelineVariableServiceType {
    Build,
    UiTest,
    FunctionalTest,
    Invalid,
}

/// The service type a pipeline variable's wire label denotes; an
/// unrecognized one is kept as `Invalid`.
pub open spec fn spec_pipeline_service_of_label(s: Seq<char>) -> PipelineVariableServiceType {
    if s == "build"@ {
        PipelineVariableServiceType::Build
    } else if s == "uiTest"@ {
        PipelineVariableServiceType::UiTest
    } else if s == "functionalTest"@ {
        PipelineVariableServiceType::FunctionalTest
    } else {
        PipelineVariableServiceType::Invalid
    }
}

/// The wire label of a pipeline variable's service type.
pub open spec fn spec_pipeline_service_label(t: PipelineVariableServiceType) -> Seq<char> {
    match t {
        PipelineVariableServiceType::Build => "build"@,
        PipelineVariableServiceType::UiTest => "uiTest"@,
        PipelineVariableServiceType::FunctionalTest => "functionalTest"@,
        PipelineVariableServiceType::Invalid => "invalid"@,
    }
}

impl PipelineVariableServiceType {
    /// The service type used when the declaration names none.
    pub fn default() -> (t: Self)
        ensures
            t == PipelineVariableServiceType::Build,
    {
        PipelineVariableServiceType::Build
    }

    /// Reads a wire label; an unrecognized label is kept as `Invalid`.
    pub fn from_label(label: &str) -> (t: Self)
        ensures
            t == spec_pipeline_service_of_label(label@),
    {
        if crate::strutil::str_eq(label, "build") {
            PipelineVariableServiceType::Build
        } else if crate::strutil::str_eq(label, "uiTest") {
            PipelineVariableServiceType::UiTest
        } else if crate::strutil::str_eq(label, "functionalTest") {
            PipelineVariableServiceType::FunctionalTest
        } else {
            PipelineVariableServiceType::Invalid
        }
    }

    /// The label under which this service type appears on the wire.
    pub fn label(&self) -> (r: &'static str)
        ensures
            r@ == spec_pipeline_service_label(*self),
    {
        match self {
            PipelineVariableServiceType::Build => "build",
            PipelineVariableServiceType::UiTest => "uiTest",
            PipelineVariableServiceType::FunctionalTest => "functionalTest",
            PipelineVariableServiceType::Invalid => "invalid",
        }
    }
}

/// An environment variable, declared locally or reported by the service.
/// A variable with no value marks a deletion when written back.
#[derive(Debug)]
pub struct EnvironmentVariable {
    pub name: String,
    pub value: Option<String>,
    pub variable_type: VariableType,
    pub service: EnvironmentVariableServiceType,
}

/// A pipeline variable, declared locally or reported by the service.
#[derive(Debug)]
pub struct PipelineVariable {
    pub name: String,
    pub value: Option<String>,
    pub variable_type: VariableType,
    pub service: PipelineVariableServiceType,
}

/// The set of environment variables inside a variables listing.
pub struct EnvironmentVariablesList {
    pub variables: Vec<EnvironmentVariable>,
}

/// The body of the service's environment variables listing.
pub struct EnvironmentVariablesResponse {
    pub variables_list: EnvironmentVariablesList,
}

/// The set of pipeline variables inside a variables listing.
pub struct PipelineVariablesList {
    pub variables: Vec<PipelineVariable>,
}

/// The body of the service's pipeline variables listing.
pub struct PipelineVariablesResponse {
    pub variables_list: PipelineVariablesList,
}

// Certificates
// -------------------------------------------------------------------------

/// Possible types that a certificate can have.
#[derive(Clone, Copy, Debug, PartialEq, Eq, Structural)]
pub enum CertificateType {
    DV,
    OV,
    EV,
}

/// Possible status that a certificate can have.
#[derive(Clone, Copy, Debug, PartialEq, Eq, Structural)]
pub enum CertificateStatus {
    PENDING,
    VALID,
    EXPIRED,
    UNKNOWN,
}

/// A certificate as the service reports it. Timestamps are UTC unix
/// seconds.
#[derive(Debug)]
pub struct Certificate {
    pub id: i64,
    pub ssl_certificate_type: CertificateType,
    pub certificate_status: Option<CertificateStatus>,
    pub serial_number: String,
    pub name: String,
    pub issuer: String,
    pub expire_at: Option<i64>,
    pub common_name: String,
    pub subject_alternative_names: Vec<String>,
    pub created_at: Option<i64>,
    pub updated_at: Option<i64>,
}

/// A list of certificates.
pub struct CertificateList {
    pub list: Vec<Certificate>,
}

/// The body of the service's certificate listing.
pub struct CertificateResponse {
    pub certificate_list: CertificateList,
    pub total_number_of_items: i64,
}

/// The payload sent to create or update a certificate.
#[derive(Debug)]
pub struct CreateUpdateCertificate {
    pub id: Option<i64>,
    pub name: String,
    pub certificate: String,
    pub chain: String,
    pub private_key: StringValue,
}

/// A string wrapped in an object, as the wire format wants it.
#[derive(Debug)]
pub struct StringValue {
    pub value: String,
}

/// The structured body the service returns for a certificate mutation that
/// was not accepted.
#[derive(Debug)]
pub struct CreateUpdateCertificateResponse {
    pub type_field: String,
    pub status: i64,
    pub title: String,
    pub additional_properties: Option<AdditionalProperties>,
}

/// The field-level errors inside a structured error body.
#[derive(Debug)]
pub struct AdditionalProperties {
    pub errors: Option<Vec<FieldError>>,
}

/// One field-level error of a refused certificate mutation.
#[derive(Debug)]
pub struct FieldError {
    pub field: String,
    pub code: String,
    pub message: String,
}

// Authentication
// -------------------------------------------------------------------------

/// Claims of the token used to authenticate against the service.
pub struct JwtClaims {
    pub exp: usize,
    pub iss: String,
    pub sub: String,
    pub aud: String,
    pub scope_ent_cloudmgr_sdk: bool,
    pub scope_ent_aem_cloud_api: bool,
}

/// The access token handed back by the identity service.
#[derive(Debug)]
pub struct BearerResponse {
    pub access_token: String,
}

/// Which authentication flow the connection configuration selects.
#[derive(Clone, Copy, Debug, PartialEq, Eq, Structural)]
pub enum AuthStrategy {
    OAuth2,
    JWT,
}

/// Which API scope the connection configuration selects.
#[derive(Clone, Copy, Debug, PartialEq, Eq, Structural)]
pub enum Scope {
    EntCloudmgrSdk,
    EntAemCloudApi,
}

/// The scope used when the configuration names none.
pub fn default_scope() -> (s: Scope)
    ensures
        s == Scope::EntCloudmgrSdk,
{
    Scope::EntCloudmgrSdk
}

/// The authentication flow used when the configuration names none.
pub fn default_auth() -> (a: AuthStrategy)
    ensures
        a == AuthStrategy::OAuth2,
{
    AuthStrategy::OAuth2
}

/// The connection configuration for the service.
pub struct CloudManagerConfig {
    pub access_token: String,
    pub client_id: String,
    pub client_secret: String,
    pub jwt: String,
    pub organization_id: String,
    pub private_key: String,
    pub technical_account_id: String,
    pub scope: Scope,
    pub auth_strategy: AuthStrategy,
}

// Programs
// -------------------------------------------------------------------------

/// The body of the service's program listing.
pub struct ProgramsResponse {
    pub programs_list: ProgramsList,
}

/// A list of programs.
pub struct ProgramsList {
    pub programs: Vec<Program>,
}

/// A program and its relevant metadata.
#[derive(Debug)]
pub struct Program {
    pub id: String,
    pub name: String,
    pub tenant_id: String,
    pub enabled: bool,
    pub status: String,
}

// Environments
// -------------------------------------------------------------------------

/// The body of the service's environment listing.
pub struct EnvironmentsResponse {
    pub environments_list: EnvironmentsList,
}

/// A list of environments.
pub struct EnvironmentsList {
    pub environments: Vec<Environment>,
}

/// An environment and its relevant metadata.
#[derive(Debug)]
pub struct Environment {
    pub name: String,
    pub env_type: String,
    pub status: String,
    pub id: String,
    pub program_id: String,
}

// Pipelines
// -------------------------------------------------------------------------

/// The body of the service's pipeline listing.
pub struct PipelinesResponse {
    pub pipelines_list: PipelinesList,
}

/// A list of pipelines.
pub struct PipelinesList {
    pub pipelines: Vec<Pipeline>,
}

/// A pipeline and its relevant metadata.
#[derive(Debug)]
pub struct Pipeline {
    pub name: String,
    pub status: String,
    pub id: String,
    pub program_id: String,
}

// Executions
// -------------------------------------------------------------------------

/// A list of pipeline executions.
pub struct ExecutionList {
    pub list: Vec<Execution>,
}

/// The body of the service's execution listing.
pub struct ExecutionResponse {
    pub execution_list: ExecutionList,
    pub total_number_of_items: i64,
}

/// One pipeline execution.
#[derive(Debug)]
pub struct Execution {
    pub id: String,
    pub program_id: String,
    pub pipeline_id: String,
    pub trigger: String,
    pub user: String,
    pub status: String,
    pub created_at: Option<String>,
    pub updated_at: Option<String>,
    pub pipeline_type: String,
    pub pipeline_execution_mode: String,
    pub finished_at: Option<String>,
}

// Domains
// -------------------------------------------------------------------------

/// A list of domains.
pub struct DomainList {
    pub list: Vec<Domain>,
}

/// The body of the service's domain listing.
pub struct DomainResponse {
    pub domain_list: DomainList,
    pub total_number_of_items: i64,
}

/// A domain binding as the service reports it.
#[derive(Debug)]
pub struct Domain {
    pub id: Option<i64>,
    pub name: String,
    pub status: Option<String>,
    pub dns_txt_record: String,
    pub environment_id: i64,
    pub environment_name: Option<String>,
    pub tier: Option<String>,
    pub certificate_id: i64,
    pub certificate_name: Option<String>,
    pub certificate_expire_at: Option<String>,
    pub created_at: Option<String>,
    pub updated_at: Option<String>,
}

/// The fields needed to create a domain binding.
#[derive(Debug)]
pub struct MinimumDomain {
    pub name: String,
    pub dns_txt_record: String,
    pub environment_id: i64,
    pub certificate_id: i64,
    pub dns_zone: String,
}

/// The structured error body the service returns when a domain cannot be
/// created.
#[derive(Debug)]
pub struct CreateDomainResponse {
    pub type_field: String,
    pub status: i64,
    pub title: String,
    pub errors: Option<Vec<Error>>,
}

/// One field-level error inside a structured error body.
#[derive(Debug)]
pub struct Error {
    pub code: String,
    pub message: String,
    pub field: String,
}

// Log tailing
// -------------------------------------------------------------------------

/// The body of the service's log tail listing.
pub struct LogTailResponse {
    pub embedded: LogTailList,
}

/// The downloads inside a log tail listing.
pub struct LogTailList {
    pub downloads: Vec<Download>,
}

/// One offered download.
pub struct Download {
    pub links: Links,
}

/// The links attached to one download.
pub struct Links {
    pub http_ns_adobe_com_adobecloud_rel_logs_tail: Option<HttpNsAdobeComAdobecloudRelLogsTail>,
}

/// The tail link of a log download.
#[derive(Debug)]
pub struct HttpNsAdobeComAdobecloudRelLogsTail {
    pub href: String,
}

/// Possible types that a log can have.
#[derive(Clone, Copy, Debug, PartialEq, Eq, Structural)]
pub enum LogType {
    AemAccess,
    AemDispatcher,
    AemError,
    AemRequest,
    Cdn,
    HttpdAccess,
    HttpdError,
}

/// The wire label of a log type.
pub open spec fn spec_log_type_label(t: LogType) -> Seq<char> {
    match t {
        LogType::AemAccess => "aemaccess"@,
        LogType::AemDispatcher => "aemdispatcher"@,
        LogType::AemError => "aemerror"@,
        LogType::AemRequest => "aemrequest"@,
        LogType::Cdn => "cdn"@,
        LogType::HttpdAccess => "httpdaccess"@,
        LogType::HttpdError => "httpderror"@,
    }
}

impl LogType {
    /// The label under which this log type appears on the wire.
    pub fn label(&self) -> (r: &'static str)
        ensures
            r@ == spec_log_type_label(*self),
    {
        match self {
            LogType::AemAccess => "aemaccess",
            LogType::AemDispatcher => "aemdispatcher",
            LogType::AemError => "aemerror",
            LogType::AemRequest => "aemrequest",
            LogType::Cdn => "cdn",
            LogType::HttpdAccess => "httpdaccess",
            LogType::HttpdError => "httpderror",
        }
    }
}

/// Possible types that a service can have.
#[derive(Clone, Copy, Debug, PartialEq, Eq, Structural)]
pub enum ServiceType {
    Author,
    Publish,
    Dispatcher,
    PreviewDispatcher,
}

/// The wire label of a service type.
pub open spec fn spec_service_type_label(t: ServiceType) -> Seq<char> {
    match t {
        ServiceType::Author => "author"@,
        ServiceType::Publish => "publish"@,
        ServiceType::Dispatcher => "dispatcher"@,
        ServiceType::PreviewDispatcher => "preview_dispatcher"@,
    }
}

impl ServiceType {
    /// The label under which this service type appears on the wire.
    pub fn label(&self) -> (r: &'static str)
        ensures
            r@ == spec_service_type_label(*self),
    {
        match self {
            ServiceType::Author => "author",
            ServiceType::Publish => "publish",
            ServiceType::Dispatcher => "dispatcher",
            ServiceType::PreviewDispatcher => "preview_dispatcher",
        }
    }
}

} // verus!
