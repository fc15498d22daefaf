//! The agent: its settings and its conversation.

use vstd::prelude::*;

use crate::history::{History, MessageView};

verus! {

/// What the agent works with.
#[derive(Debug)]
pub struct Config {
    pub model: String,
    /// the directory of the repository, as it is shown
    pub repo_root: String,
}

/// An agent in the course of a conversation.
#[derive(Debug)]
pub struct Agent {
    pub config: Config,
    pub history: History,
}

pub struct AgentView {
    pub model: Seq<char>,
    pub repo_root: Seq<char>,
    pub history: Seq<MessageView>,
}

impl DeepView for Agent {
    type V = AgentView;

    open spec fn deep_view(&self) -> AgentView {
        AgentView {
            model: self.config.model@,
            repo_root: self.config.repo_root@,
            history: self.history.deep_view(),
        }
    }
}

/// An agent whose conversation has not begun.
pub open spec fn fresh_agent(model: Seq<char>, repo_root: Seq<char>) -> AgentView {
    AgentView { model, repo_root, history: Seq::empty() }
}

impl Agent {
    /// An agent whose conversation has not begun.
    pub fn new(config: Config) -> (agent: Self)
        ensures
            agent.deep_view() == fresh_agent(config.model@, config.repo_root@),
    {
        Agent { config, history: History::new() }
    }
}

} // verus!
