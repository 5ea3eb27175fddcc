//! The monitoring dashboard (Prometheus and Grafana in Docker): its
//! configuration, the files generated for it, and how answers typed at its
//! setup prompts are read.
use crate::balancer::algorithms::random::random_below;
use crate::text::{chars_of, decimal, parse_u64, parse_u64_chars, push_decimal, push_str, string_of, to_lowercase, trim, trim_chars, unicode_lowercase};
use vstd::prelude::*;

verus! {

/// Where the monitoring stack looks for the load balancer, the ports it
/// exposes, and the Grafana login.
pub struct DashboardConfig {
    pub ultrabalancer_host: String,
    pub ultrabalancer_port: u16,
    pub prometheus_port: u16,
    pub grafana_port: u16,
    pub grafana_user: String,
    pub grafana_password: String,
    pub docker_network: String,
    pub project_name: String,
}

/// The characters a generated password is drawn from.
pub open spec fn password_alphabet() -> Seq<char> {
    "abcdefghijklmnopqrstuvwxyzABCDEFGHIJKLMNOPQRSTUVWXYZ0123456789!@#$%^&*"@
}

/// 16 characters drawn at random from `password_alphabet()`.
pub fn generate_password() -> (r: String)
    ensures
        r@.len() == 16,
        forall|i: int| 0 <= i < 16 ==> password_alphabet().contains(#[trigger] r@[i]),
{
    let alphabet = chars_of("abcdefghijklmnopqrstuvwxyzABCDEFGHIJKLMNOPQRSTUVWXYZ0123456789!@#$%^&*");
    proof {
        reveal_strlit("abcdefghijklmnopqrstuvwxyzABCDEFGHIJKLMNOPQRSTUVWXYZ0123456789!@#$%^&*");
    }
    let mut password = String::new();
    let mut k: usize = 0;
    while k < 16
        invariant
            k <= 16,
            alphabet@ == password_alphabet(),
            alphabet@.len() == 70,
            password@.len() == k,
            forall|i: int| 0 <= i < k ==> password_alphabet().contains(#[trigger] password@[i]),
        decreases 16 - k,
    {
        let j = random_below(alphabet.len());
        let c = alphabet[j];
        assert(password_alphabet()[j as int] == c);
        password.push(c);
        k = k + 1;
    }
    password
}

impl Default for DashboardConfig {
    /// The load balancer on localhost:8080, Prometheus on 9090, Grafana on
    /// 3000 with user "admin" and a fresh random password.
    fn default() -> (c: Self)
        ensures
            c.ultrabalancer_host@ == "localhost"@,
            c.ultrabalancer_port == 8080,
            c.prometheus_port == 9090,
            c.grafana_port == 3000,
            c.grafana_user@ == "admin"@,
            c.grafana_password@.len() == 16,
            forall|i: int| 0 <= i < 16 ==> password_alphabet().contains(#[trigger] c.grafana_password@[i]),
            c.docker_network@ == "ultrabalancer-net"@,
            c.project_name@ == "ultrabalancer-dashboard"@,
    {
        DashboardConfig {
            ultrabalancer_host: String::from_str("localhost"),
            ultrabalancer_port: 8080,
            prometheus_port: 9090,
            grafana_port: 3000,
            grafana_user: String::from_str("admin"),
            grafana_password: generate_password(),
            docker_network: String::from_str("ultrabalancer-net"),
            project_name: String::from_str("ultrabalancer-dashboard"),
        }
    }
}

impl Clone for DashboardConfig {
    fn clone(&self) -> (r: Self)
        ensures
            r == *self,
    {
        DashboardConfig {
            ultrabalancer_host: self.ultrabalancer_host.clone(),
            ultrabalancer_port: self.ultrabalancer_port,
            prometheus_port: self.prometheus_port,
            grafana_port: self.grafana_port,
            grafana_user: self.grafana_user.clone(),
            grafana_password: self.grafana_password.clone(),
            docker_network: self.docker_network.clone(),
            project_name: self.project_name.clone(),
        }
    }
}

/// The number of bytes a character takes in UTF-8.
pub open spec fn utf8_width(c: char) -> nat {
    if (c as u32) < 0x80 {
        1
    } else if (c as u32) < 0x800 {
        2
    } else if (c as u32) < 0x10000 {
        3
    } else {
        4
    }
}

/// The length of a text in UTF-8 bytes (what `str::len` counts).
pub open spec fn utf8_len(s: Seq<char>) -> nat
    decreases s.len(),
{
    if s.len() == 0 {
        0
    } else {
        utf8_len(s.drop_last()) + utf8_width(s.last())
    }
}

/// A password as it is shown: nothing for an empty one, one `*` per byte for
/// one of at most two bytes, else its first and last character and `***`.
pub open spec fn masked(p: Seq<char>) -> Seq<char> {
    if utf8_len(p) == 0 {
        Seq::empty()
    } else if utf8_len(p) <= 2 {
        Seq::new(utf8_len(p), |i: int| '*')
    } else {
        seq![p[0], p.last()] + "***"@
    }
}

proof fn lemma_utf8_len_bounds(s: Seq<char>)
    ensures
        s.len() <= utf8_len(s) <= 4 * s.len(),
        utf8_len(s) == 0 <==> s.len() == 0,
    decreases s.len(),
{
    if s.len() > 0 {
        lemma_utf8_len_bounds(s.drop_last());
    }
}

/// `str::len`: the length in UTF-8 bytes, counted character by character.
pub fn utf8_byte_len(s: &str) -> (r: usize)
    requires
        4 * s@.len() <= usize::MAX,
    ensures
        r == utf8_len(s@),
{
    let cs = chars_of(s);
    let mut n: usize = 0;
    let mut i: usize = 0;
    while i < cs.len()
        invariant
            i <= cs.len(),
            cs@ == s@,
            4 * s@.len() <= usize::MAX,
            n == utf8_len(cs@.take(i as int)),
        decreases cs.len() - i,
    {
        assert(cs@.take(i + 1).drop_last() =~= cs@.take(i as int));
        proof {
            lemma_utf8_len_bounds(cs@.take(i + 1));
        }
        let c = cs[i];
        let w: usize = if (c as u32) < 0x80 {
            1
        } else if (c as u32) < 0x800 {
            2
        } else if (c as u32) < 0x10000 {
            3
        } else {
            4
        };
        n = n + w;
        i = i + 1;
    }
    assert(cs@.take(cs@.len() as int) =~= cs@);
    n
}

/// How a password is shown on screen.
pub fn mask_password(pwd: &str) -> (r: String)
    requires
        4 * pwd@.len() <= usize::MAX,
    ensures
        r@ == masked(pwd@),
{
    proof {
        lemma_utf8_len_bounds(pwd@);
    }
    let len = utf8_byte_len(pwd);
    if len == 0 {
        return String::new();
    }
    if len <= 2 {
        let mut r = String::new();
        let mut k: usize = 0;
        while k < len
            invariant
                k <= len,
                r@ == Seq::new(k as nat, |i: int| '*'),
            decreases len - k,
        {
            r.push('*');
            assert(r@ =~= Seq::new((k + 1) as nat, |i: int| '*'));
            k = k + 1;
        }
        return r;
    }
    let cs = chars_of(pwd);
    let mut r = String::new();
    r.push(cs[0]);
    r.push(cs[cs.len() - 1]);
    push_str(&mut r, "***");
    assert(r@ =~= seq![pwd@[0], pwd@.last()] + "***"@);
    r
}

/// What a text prompt makes of an answer: the answer trimmed, or the default
/// when nothing was typed.
pub open spec fn text_answer_of(input: Seq<char>, default: Seq<char>) -> Seq<char> {
    if trim(input).len() == 0 {
        default
    } else {
        trim(input)
    }
}

pub fn text_answer(input: &str, default: &str) -> (r: String)
    ensures
        r@ == text_answer_of(input@, default@),
{
    let t = trim_chars(&chars_of(input));
    if t.len() == 0 {
        default.to_string()
    } else {
        string_of(&t)
    }
}

/// What a number prompt makes of an answer: the default when nothing was
/// typed; the number when the trimmed answer parses as a `u16` within
/// `min..=max`; otherwise `None`, and the question is asked again.
pub open spec fn number_answer_of(input: Seq<char>, default: u16, min: u16, max: u16) -> Option<u16> {
    if trim(input).len() == 0 {
        Some(default)
    } else {
        match parse_u64(trim(input)) {
            Some(n) => if n <= u16::MAX && min <= n && n <= max {
                Some(n as u16)
            } else {
                None
            },
            None => None,
        }
    }
}

pub fn number_answer(input: &str, default: u16, min: u16, max: u16) -> (r: Option<u16>)
    ensures
        r == number_answer_of(input@, default, min, max),
{
    let t = trim_chars(&chars_of(input));
    if t.len() == 0 {
        return Some(default);
    }
    match parse_u64_chars(&t) {
        Some(n) => if n <= 65535 && min as u64 <= n && n <= max as u64 {
            Some(n as u16)
        } else {
            None
        },
        None => None,
    }
}

/// What a yes/no prompt makes of an answer, trimmed and lower-cased: the
/// default when nothing was typed; yes for an answer starting with 'y', no
/// for one starting with 'n'; otherwise `None`, and the question is asked again.
pub open spec fn yes_no_answer_of(input: Seq<char>, default: bool) -> Option<bool> {
    let t = unicode_lowercase(trim(input));
    if t.len() == 0 {
        Some(default)
    } else if t[0] == 'y' {
        Some(true)
    } else if t[0] == 'n' {
        Some(false)
    } else {
        None
    }
}

pub fn yes_no_answer(input: &str, default: bool) -> (r: Option<bool>)
    ensures
        r == yes_no_answer_of(input@, default),
{
    let t = string_of(&trim_chars(&chars_of(input)));
    let lowered = to_lowercase(t.as_str());
    let cs = chars_of(lowered.as_str());
    if cs.len() == 0 {
        Some(default)
    } else if cs[0] == 'y' {
        Some(true)
    } else if cs[0] == 'n' {
        Some(false)
    } else {
        None
    }
}

/// Whether a new Grafana password is taken: typed the same twice, and at
/// least 8 bytes long.
pub fn password_accepted(password: &str, confirm: &str) -> (r: bool)
    requires
        4 * password@.len() <= usize::MAX,
    ensures
        r == (password@ == confirm@ && utf8_len(password@) >= 8),
{
    crate::text::str_eq(password, confirm) && utf8_byte_len(password) >= 8
}

/// The Docker volume of the stack named `volume`: `project-volume`.
pub fn volume_name(config: &DashboardConfig, volume: &str) -> (r: String)
    ensures
        r@ == config.project_name@ + "-"@ + volume@,
{
    let mut r = String::new();
    push_str(&mut r, config.project_name.as_str());
    push_str(&mut r, "-");
    push_str(&mut r, volume);
    assert(r@ =~= config.project_name@ + "-"@ + volume@);
    r
}

/// The dashboard's file layout: (path under the output directory, contents)
/// of each generated file, in the order they are written. The Grafana
/// dashboard JSON, which is copied from a file, is not among them.
pub fn dashboard_files(config: &DashboardConfig) -> (r: Vec<(String, String)>)
    ensures
        r@.len() == 5,
        r@[0].0@ == "docker-compose.yml"@ && r@[0].1@ == docker_compose_text(*config),
        r@[1].0@ == "prometheus.yml"@ && r@[1].1@ == prometheus_config_text(*config),
        r@[2].0@ == "provisioning/datasources/prometheus.yml"@ && r@[2].1@ == grafana_datasource_text(),
        r@[3].0@ == "start-dashboard.sh"@ && r@[3].1@ == startup_script_text(*config),
        r@[4].0@ == ".env"@ && r@[4].1@ == env_file_text(*config),
{
    let mut r: Vec<(String, String)> = Vec::new();
    r.push((String::from_str("docker-compose.yml"), generate_docker_compose(config)));
    r.push((String::from_str("prometheus.yml"), generate_prometheus_config(config)));
    r.push((String::from_str("provisioning/datasources/prometheus.yml"), generate_grafana_datasource()));
    r.push((String::from_str("start-dashboard.sh"), generate_startup_script(config)));
    r.push((String::from_str(".env"), generate_env_file(config)));
    r
}

/// The `docker-compose.yml` of the monitoring stack: Prometheus and Grafana on
/// the configured ports, network and project name.
pub open spec fn docker_compose_text(c: DashboardConfig) -> Seq<char> {
    "version: '3.8'\n\nservices:\n  prometheus:\n    image: prom/prometheus:v2.48.0\n    container_name: "@ + c.project_name@ + "-prometheus\n    ports:\n      - \""@ + decimal(c.prometheus_port as nat) + ":9090\"\n    volumes:\n      - ./prometheus.yml:/etc/prometheus/prometheus.yml:ro\n      - prometheus_data:/prometheus\n    command:\n      - '--config.file=/etc/prometheus/prometheus.yml'\n      - '--storage.tsdb.path=/prometheus'\n      - '--web.enable-lifecycle'\n      - '--web.enable-admin-api'\n    networks:\n      - "@ + c.docker_network@ + "\n    restart: unless-stopped\n\n  grafana:\n    image: grafana/grafana:10.2.0\n    container_name: "@ + c.project_name@ + "-grafana\n    ports:\n      - \""@ + decimal(c.grafana_port as nat) + ":3000\"\n    environment:\n      - GF_SECURITY_ADMIN_USER="@ + c.grafana_user@ + "\n      - GF_SECURITY_ADMIN_PASSWORD="@ + c.grafana_password@ + "\n      - GF_USERS_ALLOW_SIGN_UP=false\n    volumes:\n      - grafana_data:/var/lib/grafana\n      - ./provisioning:/etc/grafana/provisioning:ro\n    networks:\n      - "@ + c.docker_network@ + "\n    restart: unless-stopped\n    depends_on:\n      - prometheus\n\nvolumes:\n  prometheus_data:\n  grafana_data:\n\nnetworks:\n  "@ + c.docker_network@ + ":\n    driver: bridge\n"@
}

pub fn generate_docker_compose(config: &DashboardConfig) -> (r: String)
    ensures
        r@ == docker_compose_text(*config),
{
    let mut s = String::new();
    push_str(&mut s, "version: '3.8'\n\nservices:\n  prometheus:\n    image: prom/prometheus:v2.48.0\n    container_name: ");
    push_str(&mut s, config.project_name.as_str());
    push_str(&mut s, "-prometheus\n    ports:\n      - \"");
    push_decimal(&mut s, config.prometheus_port as u64);
    push_str(&mut s, ":9090\"\n    volumes:\n      - ./prometheus.yml:/etc/prometheus/prometheus.yml:ro\n      - prometheus_data:/prometheus\n    command:\n      - '--config.file=/etc/prometheus/prometheus.yml'\n      - '--storage.tsdb.path=/prometheus'\n      - '--web.enable-lifecycle'\n      - '--web.enable-admin-api'\n    networks:\n      - ");
    push_str(&mut s, config.docker_network.as_str());
    push_str(&mut s, "\n    restart: unless-stopped\n\n  grafana:\n    image: grafana/grafana:10.2.0\n    container_name: ");
    push_str(&mut s, config.project_name.as_str());
    push_str(&mut s, "-grafana\n    ports:\n      - \"");
    push_decimal(&mut s, config.grafana_port as u64);
    push_str(&mut s, ":3000\"\n    environment:\n      - GF_SECURITY_ADMIN_USER=");
    push_str(&mut s, config.grafana_user.as_str());
    push_str(&mut s, "\n      - GF_SECURITY_ADMIN_PASSWORD=");
    push_str(&mut s, config.grafana_password.as_str());
    push_str(&mut s, "\n      - GF_USERS_ALLOW_SIGN_UP=false\n    volumes:\n      - grafana_data:/var/lib/grafana\n      - ./provisioning:/etc/grafana/provisioning:ro\n    networks:\n      - ");
    push_str(&mut s, config.docker_network.as_str());
    push_str(&mut s, "\n    restart: unless-stopped\n    depends_on:\n      - prometheus\n\nvolumes:\n  prometheus_data:\n  grafana_data:\n\nnetworks:\n  ");
    push_str(&mut s, config.docker_network.as_str());
    push_str(&mut s, ":\n    driver: bridge\n");
    assert(s@ =~= docker_compose_text(*config));
    s
}

/// The `prometheus.yml` that scrapes the load balancer's `/prometheus` endpoint.
pub open spec fn prometheus_config_text(c: DashboardConfig) -> Seq<char> {
    "global:\n  scrape_interval: 5s\n  evaluation_interval: 5s\n\nscrape_configs:\n  - job_name: 'ultrabalancer'\n    static_configs:\n      - targets: ['"@ + c.ultrabalancer_host@ + ":"@ + decimal(c.ultrabalancer_port as nat) + "']\n    metrics_path: /prometheus\n    scheme: http\n"@
}

pub fn generate_prometheus_config(config: &DashboardConfig) -> (r: String)
    ensures
        r@ == prometheus_config_text(*config),
{
    let mut s = String::new();
    push_str(&mut s, "global:\n  scrape_interval: 5s\n  evaluation_interval: 5s\n\nscrape_configs:\n  - job_name: 'ultrabalancer'\n    static_configs:\n      - targets: ['");
    push_str(&mut s, config.ultrabalancer_host.as_str());
    push_str(&mut s, ":");
    push_decimal(&mut s, config.ultrabalancer_port as u64);
    push_str(&mut s, "']\n    metrics_path: /prometheus\n    scheme: http\n");
    assert(s@ =~= prometheus_config_text(*config));
    s
}

/// The Grafana datasource provisioning file.
pub open spec fn grafana_datasource_text() -> Seq<char> {
    "apiVersion: 1\n\ndatasources:\n  - name: Prometheus\n    type: prometheus\n    access: proxy\n    url: http://prometheus:9090\n    isDefault: true\n    version: 1\n    editable: false\n"@
}

pub fn generate_grafana_datasource() -> (r: String)
    ensures
        r@ == grafana_datasource_text(),
{
    let mut s = String::new();
    push_str(&mut s, "apiVersion: 1\n\ndatasources:\n  - name: Prometheus\n    type: prometheus\n    access: proxy\n    url: http://prometheus:9090\n    isDefault: true\n    version: 1\n    editable: false\n");
    assert(s@ =~= grafana_datasource_text());
    s
}

/// The `start-dashboard.sh` control script.
pub open spec fn startup_script_text(c: DashboardConfig) -> Seq<char> {
    "#!/bin/bash\nset -e\n\nSCRIPT_DIR=\"$(cd \"$(dirname \"${BASH_SOURCE[0]}\")\" && pwd)\"\ncd \"$SCRIPT_DIR\"\n\ncase \"$1\" in\n    start)\n        echo \"Starting UltraBalancer Dashboard...\"\n        docker compose up -d --build\n        echo \"Dashboard started successfully!\"\n        echo \"Grafana: http://localhost:"@ + decimal(c.grafana_port as nat) + "\"\n        echo \"Prometheus: http://localhost:"@ + decimal(c.prometheus_port as nat) + "\"\n        ;;\n    stop)\n        echo \"Stopping UltraBalancer Dashboard...\"\n        docker compose down -v\n        docker network rm "@ + c.docker_network@ + " 2>/dev/null || true\n        echo \"Dashboard stopped.\"\n        ;;\n    restart)\n        echo \"Restarting UltraBalancer Dashboard...\"\n        docker compose restart\n        echo \"Dashboard restarted.\"\n        ;;\n    status)\n        echo \"Checking dashboard status...\"\n        docker ps --filter \"name="@ + c.project_name@ + "\"\n        ;;\n    logs)\n        docker compose logs -f \"${2:-}\"\n        ;;\n    *)\n        echo \"Usage: $0 {start|stop|restart|status|logs}\"\n        exit 1\n        ;;\nesac\n"@
}

pub fn generate_startup_script(config: &DashboardConfig) -> (r: String)
    ensures
        r@ == startup_script_text(*config),
{
    let mut s = String::new();
    push_str(&mut s, "#!/bin/bash\nset -e\n\nSCRIPT_DIR=\"$(cd \"$(dirname \"${BASH_SOURCE[0]}\")\" && pwd)\"\ncd \"$SCRIPT_DIR\"\n\ncase \"$1\" in\n    start)\n        echo \"Starting UltraBalancer Dashboard...\"\n        docker compose up -d --build\n        echo \"Dashboard started successfully!\"\n        echo \"Grafana: http://localhost:");
    push_decimal(&mut s, config.grafana_port as u64);
    push_str(&mut s, "\"\n        echo \"Prometheus: http://localhost:");
    push_decimal(&mut s, config.prometheus_port as u64);
    push_str(&mut s, "\"\n        ;;\n    stop)\n        echo \"Stopping UltraBalancer Dashboard...\"\n        docker compose down -v\n        docker network rm ");
    push_str(&mut s, config.docker_network.as_str());
    push_str(&mut s, " 2>/dev/null || true\n        echo \"Dashboard stopped.\"\n        ;;\n    restart)\n        echo \"Restarting UltraBalancer Dashboard...\"\n        docker compose restart\n        echo \"Dashboard restarted.\"\n        ;;\n    status)\n        echo \"Checking dashboard status...\"\n        docker ps --filter \"name=");
    push_str(&mut s, config.project_name.as_str());
    push_str(&mut s, "\"\n        ;;\n    logs)\n        docker compose logs -f \"${2:-}\"\n        ;;\n    *)\n        echo \"Usage: $0 {start|stop|restart|status|logs}\"\n        exit 1\n        ;;\nesac\n");
    assert(s@ =~= startup_script_text(*config));
    s
}

/// The `.env` file of the stack.
pub open spec fn env_file_text(c: DashboardConfig) -> Seq<char> {
    "ULTRABALANCER_HOST="@ + c.ultrabalancer_host@ + "\nULTRABALANCER_PORT="@ + decimal(c.ultrabalancer_port as nat) + "\nPROMETHEUS_PORT="@ + decimal(c.prometheus_port as nat) + "\nGRAFANA_PORT="@ + decimal(c.grafana_port as nat) + "\nGRAFANA_USER="@ + c.grafana_user@ + "\nGRAFANA_PASSWORD="@ + c.grafana_password@ + "\nCOMPOSE_PROJECT_NAME="@ + c.project_name@ + "\nDOCKER_NETWORK="@ + c.docker_network@ + "\n"@
}

pub fn generate_env_file(config: &DashboardConfig) -> (r: String)
    ensures
        r@ == env_file_text(*config),
{
    let mut s = String::new();
    push_str(&mut s, "ULTRABALANCER_HOST=");
    push_str(&mut s, config.ultrabalancer_host.as_str());
    push_str(&mut s, "\nULTRABALANCER_PORT=");
    push_decimal(&mut s, config.ultrabalancer_port as u64);
    push_str(&mut s, "\nPROMETHEUS_PORT=");
    push_decimal(&mut s, config.prometheus_port as u64);
    push_str(&mut s, "\nGRAFANA_PORT=");
    push_decimal(&mut s, config.grafana_port as u64);
    push_str(&mut s, "\nGRAFANA_USER=");
    push_str(&mut s, config.grafana_user.as_str());
    push_str(&mut s, "\nGRAFANA_PASSWORD=");
    push_str(&mut s, config.grafana_password.as_str());
    push_str(&mut s, "\nCOMPOSE_PROJECT_NAME=");
    push_str(&mut s, config.project_name.as_str());
    push_str(&mut s, "\nDOCKER_NETWORK=");
    push_str(&mut s, config.docker_network.as_str());
    push_str(&mut s, "\n");
    assert(s@ =~= env_file_text(*config));
    s
}
} // verus!
