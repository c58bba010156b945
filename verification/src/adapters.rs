//! Front-end adapters: the configuration holders of the HTTP server and of
//! the webhook router. Serving requests is the caller's part.

use vstd::prelude::*;

verus! {

/// Configuration of the HTTP server.
#[derive(Debug)]
pub struct ServerConfig {
    /// Reserved for the server's settings.
    pub placeholder: Option<String>,
}

impl Default for ServerConfig {
    fn default() -> (r: Self)
        ensures
            r.placeholder is None,
    {
        ServerConfig { placeholder: None }
    }
}

/// The HTTP server front-end.
pub struct HttpServer {
    config: ServerConfig,
}

impl HttpServer {
    /// The configuration that the server was made with.
    pub closed spec fn settings(&self) -> ServerConfig {
        self.config
    }

    /// A server with the given configuration.
    pub fn new(config: ServerConfig) -> (r: Self)
        ensures
            r.settings() == config,
    {
        HttpServer { config }
    }

    /// The configuration that the server was made with.
    pub fn config(&self) -> (r: &ServerConfig)
        ensures
            *r == self.settings(),
    {
        &self.config
    }
}

/// Configuration of the webhook router.
#[derive(Debug)]
pub struct WebhookConfig {
    /// Reserved for the router's settings.
    pub placeholder: Option<String>,
}

impl Default for WebhookConfig {
    fn default() -> (r: Self)
        ensures
            r.placeholder is None,
    {
        WebhookConfig { placeholder: None }
    }
}

/// The webhook router front-end.
pub struct WebhookRouter {
    config: WebhookConfig,
}

impl WebhookRouter {
    /// The configuration that the router was made with.
    pub closed spec fn settings(&self) -> WebhookConfig {
        self.config
    }

    /// A router with the given configuration.
    pub fn new(config: WebhookConfig) -> (r: Self)
        ensures
            r.settings() == config,
    {
        WebhookRouter { config }
    }

    /// The configuration that the router was made with.
    pub fn config(&self) -> (r: &WebhookConfig)
        ensures
            *r == self.settings(),
    {
        &self.config
    }

    /// Handles a request. The router has no routes: it does nothing.
    pub fn handle_request(&self) {
    }
}

} // verus!
