//! Application configuration: the settings of the servers and of logging.

use vstd::prelude::*;
use vstd::string::*;

verus! {

/// Application configuration. A setting that is not given has its default.
#[derive(Debug, PartialEq, Eq)]
pub struct Config {
    /// The directory that the request log is written to.
    pub log_path: String,
    /// The port that the webhook listens on.
    pub webhook_port: u16,
    /// The port that control listens on.
    pub control_port: u16,
    /// Seconds between two sweeps of idle sessions.
    pub cleanup_interval: u32,
    /// The size, in bytes, at which the request log is rotated.
    pub log_rotate_size: u64,
    /// The number of rotated request logs that are kept.
    pub log_rotate_keep: u32,
}

/// What a [`Config`] holds.
pub struct ConfigView {
    pub log_path: Seq<char>,
    pub webhook_port: u16,
    pub control_port: u16,
    pub cleanup_interval: u32,
    pub log_rotate_size: u64,
    pub log_rotate_keep: u32,
}

impl View for Config {
    type V = ConfigView;

    open spec fn view(&self) -> ConfigView {
        ConfigView {
            log_path: self.log_path@,
            webhook_port: self.webhook_port,
            control_port: self.control_port,
            cleanup_interval: self.cleanup_interval,
            log_rotate_size: self.log_rotate_size,
            log_rotate_keep: self.log_rotate_keep,
        }
    }
}

/// The configuration in which every setting has its default.
pub open spec fn defaults() -> ConfigView {
    ConfigView {
        log_path: "/var/log/tessia"@,
        webhook_port: 7223,
        control_port: 7224,
        cleanup_interval: 600,
        log_rotate_size: 52428800,
        log_rotate_keep: 3,
    }
}

pub fn default_log_path() -> (r: String)
    ensures
        r@ == defaults().log_path,
{
    "/var/log/tessia".to_owned()
}

pub fn default_webhook_port() -> (r: u16)
    ensures
        r == defaults().webhook_port,
{
    7223
}

pub fn default_control_port() -> (r: u16)
    ensures
        r == defaults().control_port,
{
    7224
}

pub fn default_cleanup_interval() -> (r: u32)
    ensures
        r == defaults().cleanup_interval,
{
    600
}

/// Fifty mebibytes.
pub fn default_log_rotate_size() -> (r: u64)
    ensures
        r == defaults().log_rotate_size,
        r == 50 * 1024 * 1024,
{
    50 * 1024 * 1024
}

pub fn default_log_rotate_keep() -> (r: u32)
    ensures
        r == defaults().log_rotate_keep,
{
    3
}

impl Config {
    /// The configuration in which every setting has its default.
    pub fn default() -> (config: Config)
        ensures
            config@ == defaults(),
    {
        Config {
            log_path: default_log_path(),
            webhook_port: default_webhook_port(),
            control_port: default_control_port(),
            cleanup_interval: default_cleanup_interval(),
            log_rotate_size: default_log_rotate_size(),
            log_rotate_keep: default_log_rotate_keep(),
        }
    }

    /// The path of the request log, in the log directory.
    pub fn request_log_path(&self) -> (path: String)
        ensures
            path@ == self@.log_path + "/installer-webhook-requests.log"@,
    {
        let mut path = self.log_path.clone();
        path.append("/installer-webhook-requests.log");
        path
    }

    /// The pattern that names the rotated request logs: the path of the
    /// request log, a dot, and the place of the log's number.
    pub fn rotated_log_pattern(&self) -> (pattern: String)
        ensures
            pattern@ == self@.log_path + "/installer-webhook-requests.log"@ + ".{}"@,
    {
        let mut pattern = self.request_log_path();
        pattern.append(".{}");
        pattern
    }
}

} // verus!
