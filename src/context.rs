use std::sync::Arc;
use vstd::prelude::*;

verus! {

#[verifier::external_type_specification]
#[verifier::external_body]
pub struct ExAiClient(tokio_openai::Client);

#[verifier::external_type_specification]
#[verifier::external_body]
pub struct ExHttpClient(reqwest::Client);

/// Why the execution context could not be built.
#[derive(Debug, Clone, Copy, PartialEq, Eq, Structural)]
pub enum ContextError {
    /// No key for the AI-completion service is configured.
    MissingKey,
    /// An HTTP client could not be initialised.
    HttpClient,
}

/// Relies on `tokio_openai::openai_key`: the configured API key, if any
/// (it reads the process environment, so nothing is promised of the result).
#[verifier::external_body]
fn configured_key() -> (r: Option<String>) {
    tokio_openai::openai_key().ok()
}

/// Relies on `reqwest::ClientBuilder::build` with the default settings: a
/// client, or `None` where TLS or the resolver cannot be initialised.
#[verifier::external_body]
fn build_http_client() -> (r: Option<reqwest::Client>) {
    reqwest::Client::builder().build().ok()
}

/// Relies on `tokio_openai::Client::new`, which only stores its arguments.
#[verifier::external_body]
fn ai_client(http: reqwest::Client, key: String) -> (r: tokio_openai::Client) {
    tokio_openai::Client::new(http, key)
}

struct Inner {
    ai: tokio_openai::Client,
    req: reqwest::Client,
}

/// The shared, read-only execution context: an AI-completion client and an
/// HTTP client. Cloning it hands out another handle to the same clients.
#[derive(Clone)]
pub struct Executor {
    ctx: Arc<Inner>,
}

/// Builds the clients; the AI key is checked first, and no client is built
/// without it.
fn ctx() -> (r: Result<Executor, ContextError>)
    ensures
        r matches Err(e) ==> e == ContextError::MissingKey || e == ContextError::HttpClient,
{
    let key = configured_key();
    if key.is_none() {
        return Executor::assemble(key, None, None);
    }
    let ai_http = build_http_client();
    if ai_http.is_none() {
        return Executor::assemble(key, ai_http, None);
    }
    let req = build_http_client();
    Executor::assemble(key, ai_http, req)
}

impl Executor {
    /// The HTTP client that the context holds.
    pub closed spec fn http_client(&self) -> reqwest::Client {
        self.ctx.req
    }

    /// Assembles the context from the configured key and the two HTTP
    /// clients, one for the AI-completion client and one for plain requests.
    pub fn assemble(key: Option<String>, ai_http: Option<reqwest::Client>, req: Option<reqwest::Client>) -> (r:
        Result<Executor, ContextError>)
        ensures
            key is None ==> r == Err::<Executor, ContextError>(ContextError::MissingKey),
            key is Some && (ai_http is None || req is None) ==> r == Err::<Executor, ContextError>(
                ContextError::HttpClient,
            ),
            key is Some && ai_http is Some && req is Some ==> r is Ok,
            r matches Ok(x) ==> req == Some(x.http_client()),
    {
        match (key, ai_http, req) {
            (None, _, _) => Err(ContextError::MissingKey),
            (Some(key), Some(ai_http), Some(req)) => {
                let ex = Executor { ctx: Arc::new(Inner { ai: ai_client(ai_http, key), req }) };
                Ok(ex)
            },
            _ => Err(ContextError::HttpClient),
        }
    }

    /// Builds the context once, at startup: `MissingKey` when no AI key is
    /// configured, `HttpClient` when an HTTP client cannot be initialised.
    pub fn new() -> (r: Result<Executor, ContextError>)
        ensures
            r matches Err(e) ==> e == ContextError::MissingKey || e == ContextError::HttpClient,
    {
        ctx()
    }

    /// The AI-completion client.
    pub fn ai(&self) -> &tokio_openai::Client {
        &self.ctx.ai
    }

    /// The HTTP client.
    pub fn http(&self) -> (r: &reqwest::Client)
        ensures
            *r == self.http_client(),
    {
        &self.ctx.req
    }
}

} // verus!
