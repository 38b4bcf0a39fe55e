//! Static configuration of the server process.
//!
//! Reading configuration files or the environment is I/O and belongs to
//! the embedding program; this module holds the plain values and the
//! built-in defaults.

use vstd::prelude::*;
use vstd::string::StringExecFns;

verus! {

/// Everything the process reads at startup.
#[derive(Debug, Clone)]
pub struct Config {
    pub server: ServerConfig,
    pub database: DatabaseConfig,
    pub auth: AuthConfig,
    pub logging: LoggingConfig,
    pub cors: CorsConfig,
    pub websocket: WebSocketConfig,
}

#[derive(Debug, Clone)]
pub struct ServerConfig {
    pub host: String,
    pub port: u16,
    pub workers: Option<usize>,
}

#[derive(Debug, Clone)]
pub struct DatabaseConfig {
    pub url: String,
    pub max_connections: u32,
    pub min_connections: u32,
    pub connect_timeout: u64,
    pub idle_timeout: u64,
}

#[derive(Debug, Clone)]
pub struct AuthConfig {
    pub jwt_secret: String,
    pub jwt_expiration: i64,
    pub refresh_token_expiration: i64,
    pub password_hash_cost: u32,
}

#[derive(Debug, Clone)]
pub struct LoggingConfig {
    pub level: String,
    pub format: String,
}

#[derive(Debug, Clone)]
pub struct CorsConfig {
    pub allowed_origins: Vec<String>,
    pub allowed_methods: Vec<String>,
    pub allowed_headers: Vec<String>,
    pub max_age: u64,
}

/// Tunables of the real-time delivery service: whether it runs, its
/// capacity, its heartbeat, and how long a connection may stay silent.
#[derive(Debug, Clone)]
pub struct WebSocketConfig {
    pub enabled: bool,
    pub max_connections: usize,
    pub heartbeat_interval: u64,
    pub connection_timeout: u64,
    pub max_message_size: usize,
}

impl Default for Config {
    /// The built-in defaults: a local server on port 8080, token lifetimes
    /// of an hour and a week, and a five-minute connection timeout with a
    /// thirty-second heartbeat. Overriding them from files or the
    /// environment is the embedding program's business.
    fn default() -> (r: Config)
        ensures
            r.server.port == 8080,
            r.server.workers is None,
            r.database.max_connections == 10,
            r.database.min_connections == 1,
            r.database.connect_timeout == 30,
            r.database.idle_timeout == 600,
            r.auth.jwt_expiration == 3600,
            r.auth.refresh_token_expiration == 604800,
            r.auth.password_hash_cost == 12,
            r.cors.max_age == 3600,
            r.websocket.enabled,
            r.websocket.max_connections == 1000,
            r.websocket.heartbeat_interval == 30,
            r.websocket.connection_timeout == 300,
            r.websocket.max_message_size == 1048576,
    {
        let mut allowed_origins: Vec<String> = Vec::new();
        allowed_origins.push(String::from_str("*"));
        let mut allowed_methods: Vec<String> = Vec::new();
        allowed_methods.push(String::from_str("GET"));
        allowed_methods.push(String::from_str("POST"));
        allowed_methods.push(String::from_str("PUT"));
        allowed_methods.push(String::from_str("DELETE"));
        allowed_methods.push(String::from_str("PATCH"));
        let mut allowed_headers: Vec<String> = Vec::new();
        allowed_headers.push(String::from_str("Content-Type"));
        allowed_headers.push(String::from_str("Authorization"));
        allowed_headers.push(String::from_str("Accept"));
        Config {
            server: ServerConfig {
                host: String::from_str("0.0.0.0"),
                port: 8080,
                workers: None,
            },
            database: DatabaseConfig {
                url: String::from_str("postgresql://localhost/kingshare"),
                max_connections: 10,
                min_connections: 1,
                connect_timeout: 30,
                idle_timeout: 600,
            },
            auth: AuthConfig {
                jwt_secret: String::from_str("your-secret-key"),
                jwt_expiration: 3600,
                refresh_token_expiration: 604800,
                password_hash_cost: 12,
            },
            logging: LoggingConfig {
                level: String::from_str("info"),
                format: String::from_str("json"),
            },
            cors: CorsConfig { allowed_origins, allowed_methods, allowed_headers, max_age: 3600 },
            websocket: WebSocketConfig {
                enabled: true,
                max_connections: 1000,
                heartbeat_interval: 30,
                connection_timeout: 300,
                max_message_size: 1048576,
            },
        }
    }
}

} // verus!
