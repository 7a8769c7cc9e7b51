//! Assembling a server: collected options, tools, resources and prompts.
use crate::types::{Prompt, Resource, Tool};
use vstd::prelude::*;

verus! {

/// Collects what a server is built from. The configuration is the host's
/// own value, carried through untouched.
#[derive(Debug)]
pub struct McpServerBuilder<C> {
    pub config: Option<C>,
    pub environment: Option<String>,
    pub custom_tools: Vec<Tool>,
    pub custom_resources: Vec<Resource>,
    pub custom_prompts: Vec<Prompt>,
}

/// What a builder hands over once it holds a configuration.
#[derive(Debug)]
pub struct ServerSetup<C> {
    pub config: C,
    pub environment: String,
    pub custom_tools: Vec<Tool>,
    pub custom_resources: Vec<Resource>,
    pub custom_prompts: Vec<Prompt>,
}

/// The setup carries the builder's parts, with `development` as the
/// environment when none was given.
pub open spec fn setup_ok<C>(s: ServerSetup<C>, b: McpServerBuilder<C>) -> bool {
    &&& s.config == b.config.unwrap()
    &&& b.environment is Some ==> s.environment == b.environment.unwrap()
    &&& b.environment is None ==> s.environment@ == "development"@
    &&& s.custom_tools == b.custom_tools
    &&& s.custom_resources == b.custom_resources
    &&& s.custom_prompts == b.custom_prompts
}

impl<C> McpServerBuilder<C> {
    pub fn new() -> (r: Self)
        ensures
            r.config is None,
            r.environment is None,
            r.custom_tools@.len() == 0,
            r.custom_resources@.len() == 0,
            r.custom_prompts@.len() == 0,
    {
        McpServerBuilder {
            config: None,
            environment: None,
            custom_tools: Vec::new(),
            custom_resources: Vec::new(),
            custom_prompts: Vec::new(),
        }
    }

    pub fn with_config(self, config: C) -> (r: Self)
        ensures
            r.config == Some(config),
            r.environment == self.environment,
            r.custom_tools == self.custom_tools,
            r.custom_resources == self.custom_resources,
            r.custom_prompts == self.custom_prompts,
    {
        McpServerBuilder { config: Some(config), ..self }
    }

    pub fn with_environment(self, environment: String) -> (r: Self)
        ensures
            r.config == self.config,
            r.environment == Some(environment),
            r.custom_tools == self.custom_tools,
            r.custom_resources == self.custom_resources,
            r.custom_prompts == self.custom_prompts,
    {
        McpServerBuilder { environment: Some(environment), ..self }
    }

    pub fn with_tool(self, tool: Tool) -> (r: Self)
        ensures
            r.config == self.config,
            r.environment == self.environment,
            r.custom_tools@ == self.custom_tools@.push(tool),
            r.custom_resources == self.custom_resources,
            r.custom_prompts == self.custom_prompts,
    {
        let mut b = self;
        b.custom_tools.push(tool);
        b
    }

    pub fn with_resource(self, resource: Resource) -> (r: Self)
        ensures
            r.config == self.config,
            r.environment == self.environment,
            r.custom_tools == self.custom_tools,
            r.custom_resources@ == self.custom_resources@.push(resource),
            r.custom_prompts == self.custom_prompts,
    {
        let mut b = self;
        b.custom_resources.push(resource);
        b
    }

    pub fn with_prompt(self, prompt: Prompt) -> (r: Self)
        ensures
            r.config == self.config,
            r.environment == self.environment,
            r.custom_tools == self.custom_tools,
            r.custom_resources == self.custom_resources,
            r.custom_prompts@ == self.custom_prompts@.push(prompt),
    {
        let mut b = self;
        b.custom_prompts.push(prompt);
        b
    }

    /// Hands over the collected parts. A configuration is required; the
    /// environment defaults to `development`.
    pub fn build(self) -> (r: Result<ServerSetup<C>, String>)
        ensures
            self.config is None ==> (r matches Err(m) && m@ == "Configuration is required"@),
            self.config is Some ==> r is Ok && setup_ok(r->Ok_0, self),
    {
        let McpServerBuilder { config, environment, custom_tools, custom_resources, custom_prompts } =
            self;
        match config {
            None => Err("Configuration is required".to_string()),
            Some(config) => {
                let environment = match environment {
                    Some(e) => e,
                    None => "development".to_string(),
                };
                Ok(ServerSetup { config, environment, custom_tools, custom_resources, custom_prompts })
            },
        }
    }
}

} // verus!
