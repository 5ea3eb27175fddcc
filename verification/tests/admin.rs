use std::sync::{Arc, Mutex};
use ultrabalancer::admin::dashboard::{
    dashboard_files, generate_env_file, password_accepted, generate_password, generate_prometheus_config, mask_password, number_answer,
    text_answer, utf8_byte_len, volume_name, yes_no_answer, DashboardConfig,
};
use ultrabalancer::admin::{
    admin_endpoint, requested_weight, AddBackendRequest, AdminApi, AdminEndpoint, BackendInfo, BackendManager,
    RemoveBackendRequest, UpdateWeightRequest,
};

struct Manager {
    backends: Mutex<Vec<(String, u32)>>,
}

impl BackendManager for Manager {
    fn list_backends(&self) -> Vec<BackendInfo> {
        self.backends
            .lock()
            .unwrap()
            .iter()
            .map(|(a, w)| BackendInfo { address: a.clone(), weight: *w, healthy: true, active_connections: 0, total_requests: 0 })
            .collect()
    }
    fn add_backend(&self, address: &str, weight: u32) -> bool {
        let mut b = self.backends.lock().unwrap();
        if b.iter().any(|(a, _)| a == address) {
            return false;
        }
        b.push((address.to_string(), weight));
        true
    }
    fn remove_backend(&self, address: &str) -> bool {
        let mut b = self.backends.lock().unwrap();
        let before = b.len();
        b.retain(|(a, _)| a != address);
        b.len() < before
    }
    fn update_weight(&self, address: &str, weight: u32) -> bool {
        let mut b = self.backends.lock().unwrap();
        match b.iter_mut().find(|(a, _)| a == address) {
            Some(e) => {
                e.1 = weight;
                true
            }
            None => false,
        }
    }
    fn get_backend(&self, address: &str) -> Option<BackendInfo> {
        self.list_backends().into_iter().find(|b| b.address == address)
    }
    fn drain_backend(&self, address: &str) -> bool {
        self.get_backend(address).is_some()
    }
    fn undrain_backend(&self, address: &str) -> bool {
        self.get_backend(address).is_some()
    }
}

fn api(key: Option<&str>) -> AdminApi<Manager> {
    AdminApi::new(Arc::new(Manager { backends: Mutex::new(Vec::new()) }), key.map(|k| k.to_string()))
}

#[test]
fn endpoints_by_method_and_path() {
    assert!(admin_endpoint("GET", "/admin/backends") == AdminEndpoint::ListBackends);
    assert!(admin_endpoint("POST", "/admin/backends") == AdminEndpoint::AddBackend);
    assert!(admin_endpoint("DELETE", "/admin/backends") == AdminEndpoint::RemoveBackend);
    assert!(admin_endpoint("PUT", "/admin/backends/weight") == AdminEndpoint::UpdateWeight);
    assert!(admin_endpoint("POST", "/admin/backends/drain") == AdminEndpoint::DrainBackend);
    assert!(admin_endpoint("POST", "/admin/backends/undrain") == AdminEndpoint::UndrainBackend);
    assert!(admin_endpoint("GET", "/admin/health") == AdminEndpoint::Health);
    assert!(admin_endpoint("POST", "/admin/reload") == AdminEndpoint::Reload);
    assert!(admin_endpoint("GET", "/admin/reload") == AdminEndpoint::NotFound);
    assert!(admin_endpoint("get", "/admin/backends") == AdminEndpoint::NotFound);
}

#[test]
fn api_key_guard() {
    let open = api(None);
    assert!(open.authorized(None));
    assert!(open.authorized(Some("anything")));
    let guarded = api(Some("SECRET-REDACTED"));
    assert!(!guarded.authorized(None));
    assert!(!guarded.authorized(Some("wrong")));
    assert!(guarded.authorized(Some("SECRET-REDACTED")));
    let r = guarded.unauthorized_reply();
    assert_eq!((r.status, r.response.success, r.response.message.as_str()), (401, false, "Invalid API key"));
}

#[test]
fn backend_changes() {
    let a = api(None);
    let add = AddBackendRequest { address: "10.0.0.1:80".to_string(), weight: None, group: None };
    assert_eq!(requested_weight(&add), 100);
    let r = a.add_backend(&add);
    assert_eq!((r.status, r.response.success, r.response.message.as_str()), (200, true, "Backend added"));
    let r = a.add_backend(&add);
    assert_eq!((r.status, r.response.message.as_str()), (409, "Backend already exists"));
    assert_eq!(a.list_backends()[0].weight, 100);
    let r = a.update_weight(&UpdateWeightRequest { address: "10.0.0.1:80".to_string(), weight: 7 });
    assert_eq!((r.status, r.response.message.as_str()), (200, "Weight updated"));
    assert_eq!(a.list_backends()[0].weight, 7);
    let gone = RemoveBackendRequest { address: "nope".to_string() };
    let r = a.drain_backend(&gone);
    assert_eq!((r.status, r.response.message.as_str()), (404, "Backend not found"));
    let here = RemoveBackendRequest { address: "10.0.0.1:80".to_string() };
    assert_eq!(a.drain_backend(&here).response.message, "Backend draining");
    assert_eq!(a.undrain_backend(&here).response.message, "Backend undraining");
    assert_eq!(a.remove_backend(&here).response.message, "Backend removed");
    assert_eq!(a.remove_backend(&here).status, 404);
    assert_eq!(a.health_check().response.message, "Admin API healthy");
    assert_eq!(a.reload_config().response.message, "Config reload triggered");
    assert_eq!(a.not_found_reply().status, 404);
    assert_eq!(a.invalid_json_reply().response.message, "Invalid JSON");
    assert_eq!(a.bad_body_reply("boom").status, 400);
    let w = AddBackendRequest { address: "x".to_string(), weight: Some(3), group: Some("g".to_string()) };
    assert_eq!(requested_weight(&w), 3);
}

#[test]
fn passwords_and_masks() {
    let p = generate_password();
    assert_eq!(p.chars().count(), 16);
    let alphabet = "abcdefghijklmnopqrstuvwxyzABCDEFGHIJKLMNOPQRSTUVWXYZ0123456789!@#$%^&*";
    assert!(p.chars().all(|c| alphabet.contains(c)));
    assert_eq!(mask_password(""), "");
    assert_eq!(mask_password("a"), "*");
    assert_eq!(mask_password("ab"), "**");
    assert_eq!(mask_password("é"), "**");
    assert_eq!(mask_password("abc"), "ac***");
    assert_eq!(mask_password("secret"), "st***");
    assert_eq!(utf8_byte_len("aé€😀"), 10);
    let d = DashboardConfig::default();
    assert_eq!(d.grafana_password.chars().count(), 16);
    assert_eq!((d.ultrabalancer_port, d.prometheus_port, d.grafana_port), (8080, 9090, 3000));
}

#[test]
fn prompt_answers() {
    assert_eq!(text_answer("  host  \n", "localhost"), "host");
    assert_eq!(text_answer("   \n", "localhost"), "localhost");
    assert_eq!(number_answer("\n", 8080, 1, 65535), Some(8080));
    assert_eq!(number_answer(" 9000 \n", 8080, 1, 65535), Some(9000));
    assert_eq!(number_answer("+42", 8080, 1, 65535), Some(42));
    assert_eq!(number_answer("0", 8080, 1, 65535), None);
    assert_eq!(number_answer("70000", 8080, 1, 65535), None);
    assert_eq!(number_answer("abc", 8080, 1, 65535), None);
    assert_eq!(yes_no_answer("\n", true), Some(true));
    assert_eq!(yes_no_answer("Yes\n", false), Some(true));
    assert_eq!(yes_no_answer(" NO ", true), Some(false));
    assert_eq!(yes_no_answer("maybe", true), None);
}

fn sample() -> DashboardConfig {
    DashboardConfig {
        ultrabalancer_host: "lb.local".to_string(),
        ultrabalancer_port: 8080,
        prometheus_port: 9090,
        grafana_port: 3000,
        grafana_user: "admin".to_string(),
        grafana_password: "pw".to_string(),
        docker_network: "net".to_string(),
        project_name: "proj".to_string(),
    }
}

#[test]
fn generated_files() {
    let c = sample();
    let prom = generate_prometheus_config(&c);
    assert!(prom.contains("      - targets: ['lb.local:8080']\n"));
    assert!(prom.starts_with("global:\n  scrape_interval: 5s\n"));
    assert_eq!(
        generate_env_file(&c),
        "ULTRABALANCER_HOST=lb.local\nULTRABALANCER_PORT=8080\nPROMETHEUS_PORT=9090\nGRAFANA_PORT=3000\nGRAFANA_USER=admin\nGRAFANA_PASSWORD=pw\nCOMPOSE_PROJECT_NAME=proj\nDOCKER_NETWORK=net\n"
    );
    let files = dashboard_files(&c);
    let names: Vec<&str> = files.iter().map(|(n, _)| n.as_str()).collect();
    assert_eq!(names, vec!["docker-compose.yml", "prometheus.yml", "provisioning/datasources/prometheus.yml", "start-dashboard.sh", ".env"]);
    assert!(files[0].1.contains("container_name: proj-grafana"));
    assert!(files[0].1.contains("- \"3000:3000\""));
    assert!(files[3].1.contains("SCRIPT_DIR=\"$(cd \"$(dirname \"${BASH_SOURCE[0]}\")\" && pwd)\""));
    assert!(files[3].1.contains("echo \"Usage: $0 {start|stop|restart|status|logs}\""));
    assert_eq!(volume_name(&c, "grafana_data"), "proj-grafana_data");
}

#[test]
fn new_passwords() {
    assert!(password_accepted("12345678", "12345678"));
    assert!(!password_accepted("1234567", "1234567"));
    assert!(!password_accepted("12345678", "12345679"));
    assert!(password_accepted("ééééé", "ééééé"));
}

#[test]
fn requests_are_routed_after_the_key_check() {
    let guarded = api(Some("k1"));
    match guarded.route(Some("bad"), "GET", "/admin/backends") {
        Err(r) => assert_eq!(r.status, 401),
        Ok(_) => panic!("a wrong key must be refused"),
    }
    assert!(matches!(guarded.route(Some("k1"), "GET", "/admin/backends"), Ok(AdminEndpoint::ListBackends)));
    assert!(matches!(api(None).route(None, "PUT", "/nowhere"), Ok(AdminEndpoint::NotFound)));
}
