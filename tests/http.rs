use rainmeter_remote_simple_metric_server::cache::AppState;
use rainmeter_remote_simple_metric_server::config::Config;
use rainmeter_remote_simple_metric_server::http::{handle, not_found_reply, stats_reply};
use rainmeter_remote_simple_metric_server::probe::Probe;

fn config() -> Config {
    Config { host: "0.0.0.0".to_string(), port: 3000, path: "/stats".to_string(), interval: 1 }
}

#[test]
fn unmatched_path_is_not_found_and_names_it() {
    let r = not_found_reply("/nope", &config());
    assert_eq!(r.status, 404);
    assert_eq!(r.content_type, "text/html; charset=utf-8");
    assert_eq!(r.server, "rainmeter-remote-simple-metric-server");
    assert!(r.body.contains("The requested URL /nope was not found on this server."));
    assert!(r.body.contains("please visit /stats"));
    assert!(r.body.contains("Server at 0.0.0.0 Port 3000</address>"));
    assert!(r.body.starts_with("<!DOCTYPE HTML PUBLIC \"-//IETF//DTD HTML 2.0//EN\">\n<html><head>\n"));
    assert!(r.body.ends_with("</address>\n</body></html>"));
}

#[test]
fn stats_reply_is_plain_text() {
    let r = stats_reply("cpu=[1.0]".to_string());
    assert_eq!(r.status, 200);
    assert_eq!(r.content_type, "text/plain; charset=utf-8");
    assert_eq!(r.server, "rainmeter-remote-simple-metric-server");
    assert_eq!(r.body, "cpu=[1.0]");
}

#[test]
fn requests_are_routed_by_exact_path() {
    let mut state = AppState::new(3600, Probe::new(), 0);
    let cfg = config();
    let ok = handle("/stats", &cfg, &mut state, 1);
    assert_eq!(ok.status, 200);
    assert_eq!(ok.content_type, "text/plain; charset=utf-8");
    let keys: Vec<&str> = ok.body.lines().map(|l| l.split("=[").next().unwrap()).collect();
    assert_eq!(keys, vec!["cpu", "mem", "swap", "io_read", "io_write", "net_rx", "net_tx"]);
    for url in ["/stats/", "/stats?x=1", "/", "/STATS"] {
        let r = handle(url, &cfg, &mut state, 2);
        assert_eq!(r.status, 404);
        assert!(r.body.contains(url));
    }
    assert_eq!(handle("/stats", &cfg, &mut state, 3).body, ok.body);
}
