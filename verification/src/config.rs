//! Configuration toggles consumed by the surrounding host, not branched on
//! by the core pipeline itself.

use vstd::prelude::*;
use vstd::string::StringExecFns;

verus! {

/// Feature toggles and resource ceilings for the surrounding browser host.
#[derive(Debug, Clone)]
pub struct BrowserConfig {
    /// Enable JavaScript execution.
    pub enable_javascript: bool,
    /// Enable image loading.
    pub enable_images: bool,
    /// Enable CSS.
    pub enable_css: bool,
    /// Maximum concurrent connections.
    pub max_connections: usize,
    /// User agent string.
    pub user_agent: String,
    /// Enable consciousness pattern recognition.
    pub enable_consciousness: bool,
    /// Maximum memory usage (bytes).
    pub max_memory: usize,
}

impl Default for BrowserConfig {
    /// The stock configuration: everything enabled, six connections, a
    /// 512 MiB memory ceiling.
    fn default() -> (c: BrowserConfig)
        ensures
            c.enable_javascript,
            c.enable_images,
            c.enable_css,
            c.max_connections == 6,
            c.user_agent@ == "EssentiaBrowser/1.0"@,
            c.enable_consciousness,
            c.max_memory == 536870912,
    {
        BrowserConfig {
            enable_javascript: true,
            enable_images: true,
            enable_css: true,
            max_connections: 6,
            user_agent: String::from_str("EssentiaBrowser/1.0"),
            enable_consciousness: true,
            max_memory: 536870912,
        }
    }
}

} // verus!
