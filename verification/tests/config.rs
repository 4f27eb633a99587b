use installer_webhook::config::default_cleanup_interval;
use installer_webhook::config::default_control_port;
use installer_webhook::config::default_log_path;
use installer_webhook::config::default_log_rotate_keep;
use installer_webhook::config::default_log_rotate_size;
use installer_webhook::config::default_webhook_port;
use installer_webhook::config::Config;

#[test]
fn default_impl() {
    assert_eq!(
        Config::default(),
        Config {
            log_path: default_log_path(),
            control_port: default_control_port(),
            webhook_port: default_webhook_port(),
            cleanup_interval: default_cleanup_interval(),
            log_rotate_size: default_log_rotate_size(),
            log_rotate_keep: default_log_rotate_keep()
        }
    );
}

#[test]
fn default_values() {
    assert_eq!(default_log_path(), "/var/log/tessia");
    assert_eq!(default_webhook_port(), 7223);
    assert_eq!(default_control_port(), 7224);
    assert_eq!(default_cleanup_interval(), 600);
    assert_eq!(default_log_rotate_size(), 52_428_800);
    assert_eq!(default_log_rotate_keep(), 3);
}

#[test]
fn request_log_names() {
    let config = Config::default();
    assert_eq!(
        config.request_log_path(),
        "/var/log/tessia/installer-webhook-requests.log"
    );
    assert_eq!(
        config.rotated_log_pattern(),
        "/var/log/tessia/installer-webhook-requests.log.{}"
    );
}
