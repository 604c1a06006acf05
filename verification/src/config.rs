use vstd::prelude::*;

verus! {

/// The process settings: server, vector-search backend, and agent limits.
/// Loading them from files or the environment is the caller's business; the
/// defaults here are the complete fallback configuration.
#[derive(Debug)]
pub struct Settings {
    pub server: ServerConfig,
    pub qdrant: QdrantConfig,
    pub agents: AgentConfig,
}

#[derive(Debug)]
pub struct ServerConfig {
    pub host: String,
    pub port: u16,
    pub cors_origins: Vec<String>,
    pub max_connections: usize,
}

#[derive(Debug)]
pub struct QdrantConfig {
    pub endpoint: String,
    pub api_key: Option<String>,
    pub timeout_seconds: u64,
}

#[derive(Debug)]
pub struct AgentConfig {
    pub max_agents: usize,
    pub session_timeout_seconds: u64,
    pub sync_interval_seconds: u64,
}

impl Default for Settings {
    /// The built-in fallback: a local server on port 3000, a local backend,
    /// and modest agent limits.
    fn default() -> (r: Self)
        ensures
            r.server.host@ == "0.0.0.0"@,
            r.server.port == 3000,
            r.server.cors_origins@.len() == 2,
            r.server.cors_origins@[0]@ == "http://localhost:3000"@,
            r.server.cors_origins@[1]@ == "http://localhost:3001"@,
            r.server.max_connections == 100,
            r.qdrant.endpoint@ == "http://localhost:6333"@,
            r.qdrant.api_key is None,
            r.qdrant.timeout_seconds == 30,
            r.agents.max_agents == 10,
            r.agents.session_timeout_seconds == 3600,
            r.agents.sync_interval_seconds == 30,
    {
        let mut cors_origins: Vec<String> = Vec::new();
        cors_origins.push("http://localhost:3000".to_owned());
        cors_origins.push("http://localhost:3001".to_owned());
        Self {
            server: ServerConfig {
                host: "0.0.0.0".to_owned(),
                port: 3000,
                cors_origins,
                max_connections: 100,
            },
            qdrant: QdrantConfig {
                endpoint: "http://localhost:6333".to_owned(),
                api_key: None,
                timeout_seconds: 30,
            },
            agents: AgentConfig {
                max_agents: 10,
                session_timeout_seconds: 3600,
                sync_interval_seconds: 30,
            },
        }
    }
}

} // verus!
