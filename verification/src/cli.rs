//! The command-line surface as plain data: which scan to run and with what
//! options. Argument parsing itself happens outside the library; these types
//! carry its outcome.

use vstd::prelude::*;

verus! {

/// The two scans the tool offers: a GitHub repository's documents, or a
/// website crawled from a start URL.
#[derive(Debug, Clone)]
pub enum Commands {
    /// Scan a GitHub repository's README for broken links.
    Github { repo_url: String, json: bool },
    /// Crawl a website and scan every page found for broken links.
    Site { website_url: String, json: bool, max_depth: usize },
}

/// One invocation of the tool: the chosen command.
#[derive(Debug, Clone)]
pub struct Cli {
    pub command: Commands,
}

} // verus!
