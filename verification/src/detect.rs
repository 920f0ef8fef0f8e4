//! Project detection: from what a directory holds (its entry names and the
//! text of the few files the rules read), which dev services it has.
//! Reading the directory is the caller's; the rules are here.
use vstd::prelude::*;
use crate::service::{fresh_service, id_spec, Service, ServiceView};
use crate::text::{
    concat, contains, is_ws, ends_with, has_sub, is_prefix, is_suffix, lines, lines_spec, starts_with,
    str_eq, strs_view, trim, trim_end_char, trim_end_char_spec, trim_spec,
};

verus! {

/// A readable file of a directory and its text.
pub struct FileContent {
    pub name: String,
    pub content: String,
}

/// What detection reads of one directory: the names of its entries that
/// exist, and the text of the files it could read.
pub struct DirProbe {
    pub entries: Vec<String>,
    pub files: Vec<FileContent>,
}

/// An immediate subdirectory and what it holds.
pub struct SubdirProbe {
    pub name: String,
    pub probe: DirProbe,
}

/// A project root and its immediate subdirectories, in listing order.
pub struct ProjectProbe {
    pub root: DirProbe,
    pub subdirs: Vec<SubdirProbe>,
}

/// The commands the machine offers for Python and Docker Compose:
/// `python3` or `python`, `docker-compose` or `docker compose`.
pub struct Toolchain {
    pub python: String,
    pub compose: String,
}

/// One `[[service]]` entry of `rudder.toml`.
pub struct ConfigEntry {
    pub name: String,
    pub cmd: String,
    pub dir: Option<String>,
    pub url: Option<String>,
}

pub open spec fn services_view(v: Seq<Service>) -> Seq<ServiceView> {
    v.map_values(|s: Service| s@)
}

/// The directory has an entry of that name.
pub open spec fn probe_has(p: DirProbe, name: Seq<char>) -> bool {
    exists|i: int| 0 <= i < p.entries@.len() && p.entries@[i]@ == name
}

/// The text of the first readable file of that name.
pub open spec fn file_text(files: Seq<FileContent>, name: Seq<char>) -> Option<Seq<char>>
    decreases files.len(),
{
    if files.len() == 0 {
        None
    } else if files[0].name@ == name {
        Some(files[0].content@)
    } else {
        file_text(files.drop_first(), name)
    }
}

/// The text of the file of that name, where it is an entry of the directory
/// and could be read (only a file that is there can be read).
pub open spec fn probe_text(p: DirProbe, name: Seq<char>) -> Option<Seq<char>> {
    if probe_has(p, name) {
        file_text(p.files@, name)
    } else {
        None
    }
}

/// Whether the directory has an entry named `name`.
pub fn has(p: &DirProbe, name: &str) -> (r: bool)
    ensures
        r == probe_has(*p, name@),
{
    let mut i: usize = 0;
    while i < p.entries.len()
        invariant
            i <= p.entries.len(),
            forall|j: int| 0 <= j < i ==> p.entries@[j]@ != name@,
        decreases p.entries.len() - i,
    {
        if str_eq(p.entries[i].as_str(), name) {
            return true;
        }
        i += 1;
    }
    false
}

/// The text of the file named `name`, where it could be read.
pub fn read_to_string(p: &DirProbe, name: &str) -> (r: Option<String>)
    ensures
        match r {
            Some(t) => probe_text(*p, name@) == Some(t@),
            None => probe_text(*p, name@) is None,
        },
{
    let present = has(p, name);
    if !present {
        return None;
    }
    let mut i: usize = 0;
    assert(p.files@.skip(0) =~= p.files@);
    while i < p.files.len()
        invariant
            i <= p.files.len(),
            probe_has(*p, name@),
            probe_text(*p, name@) == file_text(p.files@.skip(i as int), name@),
        decreases p.files.len() - i,
    {
        assert(p.files@.skip(i as int).drop_first() =~= p.files@.skip(i + 1));
        if str_eq(p.files[i].name.as_str(), name) {
            return Some(p.files[i].content.clone());
        }
        i += 1;
    }
    None
}

/// The Node package manager a lockfile picks.
pub open spec fn package_manager_spec(p: DirProbe) -> Seq<char> {
    if probe_has(p, "bun.lockb"@) {
        "bun"@
    } else if probe_has(p, "pnpm-lock.yaml"@) {
        "pnpm"@
    } else if probe_has(p, "yarn.lock"@) {
        "yarn"@
    } else {
        "npm"@
    }
}

pub fn package_manager(p: &DirProbe) -> (r: &'static str)
    ensures
        r@ == package_manager_spec(*p),
{
    if has(p, "bun.lockb") {
        "bun"
    } else if has(p, "pnpm-lock.yaml") {
        "pnpm"
    } else if has(p, "yarn.lock") {
        "yarn"
    } else {
        "npm"
    }
}

/// The dev command of a `package.json` with a `dev` or `develop` script,
/// by framework: `<pm> start` for Create React App, `ng serve` for Angular,
/// `<pm> run dev` otherwise.
pub open spec fn node_dev_cmd(c: Seq<char>, pm: Seq<char>) -> Seq<char> {
    if has_sub(c, "\"next\""@) || has_sub(c, "\"vite\""@) {
        pm + " run dev"@
    } else if has_sub(c, "\"react-scripts\""@) {
        pm + " start"@
    } else if has_sub(c, "\"vue\""@) || has_sub(c, "\"@vue\""@) {
        pm + " run dev"@
    } else if has_sub(c, "\"@angular\""@) || has_sub(c, "\"@angular/"@) || has_sub(c, "\"angular\""@) {
        "ng serve"@
    } else {
        pm + " run dev"@
    }
}

/// The command of the `main.py` rule.
pub open spec fn main_py_cmd(text: Option<Seq<char>>, python: Seq<char>) -> Seq<char> {
    match text {
        Some(c) => if has_sub(c, "FastAPI"@) || has_sub(c, "uvicorn"@) {
            "uvicorn main:app --reload"@
        } else if has_sub(c, "flask"@) || has_sub(c, "Flask"@) {
            "flask run"@
        } else {
            python + " main.py"@
        },
        None => python + " main.py"@,
    }
}

/// The command of the `Makefile` rule.
pub open spec fn makefile_cmd(text: Option<Seq<char>>) -> Seq<char> {
    match text {
        Some(c) => if has_sub(c, "dev:"@) {
            "make dev"@
        } else if has_sub(c, "run:"@) {
            "make run"@
        } else if has_sub(c, "start:"@) {
            "make start"@
        } else {
            "make"@
        },
        None => "make"@,
    }
}

/// `package.json` names a script of that name.
pub open spec fn has_script(c: Seq<char>, quoted: Seq<char>) -> bool {
    has_sub(c, quoted)
}

/// The primary dev command of a directory: the first rule that matches,
/// in the order of the README's table.
pub open spec fn primary_cmd(p: DirProbe, python: Seq<char>) -> Option<Seq<char>> {
    let pkg = probe_text(p, "package.json"@);
    let pm = package_manager_spec(p);
    if probe_has(p, "package.json"@) && pkg is Some && (has_script(pkg->0, "\"dev\""@)
        || has_script(pkg->0, "\"develop\""@)) {
        Some(node_dev_cmd(pkg->0, pm))
    } else if probe_has(p, "package.json"@) && pkg is Some && has_script(pkg->0, "\"start\""@) {
        Some(pm + " start"@)
    } else if probe_has(p, "Cargo.toml"@) {
        Some("cargo run"@)
    } else if probe_has(p, "go.mod"@) {
        Some("go run ."@)
    } else if probe_has(p, "pom.xml"@) {
        Some("mvn spring-boot:run"@)
    } else if probe_has(p, "build.gradle"@) || probe_has(p, "build.gradle.kts"@) {
        Some("gradle bootRun"@)
    } else if probe_has(p, "manage.py"@) {
        Some(python + " manage.py runserver"@)
    } else if probe_has(p, "pyproject.toml"@) {
        Some("uv run"@)
    } else if probe_has(p, "requirements.txt"@) {
        Some(python + " main.py"@)
    } else if probe_has(p, "Gemfile"@) {
        Some("bundle exec rails server"@)
    } else if probe_has(p, "mix.exs"@) {
        Some("mix phx.server"@)
    } else if probe_has(p, "composer.json"@) {
        if probe_has(p, "artisan"@) {
            Some("php artisan serve"@)
        } else {
            Some("php -S localhost:8000"@)
        }
    } else if probe_has(p, "Program.cs"@) || probe_has(p, "Program.fs"@) {
        Some("dotnet run"@)
    } else if probe_has(p, "main.py"@) {
        Some(main_py_cmd(probe_text(p, "main.py"@), python))
    } else if probe_has(p, "index.js"@) || probe_has(p, "index.ts"@) {
        Some("node index.js"@)
    } else if probe_has(p, "server.js"@) {
        Some("node server.js"@)
    } else if probe_has(p, "Makefile"@) {
        Some(makefile_cmd(probe_text(p, "Makefile"@)))
    } else {
        None
    }
}

fn node_cmd(p: &DirProbe, content: &String) -> (r: String)
    ensures
        r@ == node_dev_cmd(content@, package_manager_spec(*p)),
{
    let pm = package_manager(p);
    let c = content.as_str();
    if contains(c, "\"next\"") {
        concat(pm, " run dev")
    } else if contains(c, "\"vite\"") {
        concat(pm, " run dev")
    } else if contains(c, "\"react-scripts\"") {
        concat(pm, " start")
    } else if contains(c, "\"vue\"") || contains(c, "\"@vue\"") {
        concat(pm, " run dev")
    } else if contains(c, "\"@angular\"") || contains(c, "\"@angular/") || contains(c, "\"angular\"") {
        "ng serve".to_owned()
    } else if contains(c, "\"svelte\"") || contains(c, "\"@svelte\"") {
        concat(pm, " run dev")
    } else if contains(c, "\"nuxt\"") {
        concat(pm, " run dev")
    } else {
        concat(pm, " run dev")
    }
}

/// The primary dev command of a directory (see `primary_cmd`).
pub fn primary_command(p: &DirProbe, tools: &Toolchain) -> (r: Option<String>)
    ensures
        match r {
            Some(c) => primary_cmd(*p, tools.python@) == Some(c@),
            None => primary_cmd(*p, tools.python@) is None,
        },
{
    let python = tools.python.as_str();
    if has(p, "package.json") {
        match read_to_string(p, "package.json") {
            Some(content) => {
                if contains(content.as_str(), "\"dev\"") || contains(content.as_str(), "\"develop\"") {
                    return Some(node_cmd(p, &content));
                }
                if contains(content.as_str(), "\"start\"") {
                    return Some(concat(package_manager(p), " start"));
                }
            },
            None => {},
        }
    }
    if has(p, "Cargo.toml") {
        return Some("cargo run".to_owned());
    }
    if has(p, "go.mod") {
        return Some("go run .".to_owned());
    }
    if has(p, "pom.xml") {
        return Some("mvn spring-boot:run".to_owned());
    }
    if has(p, "build.gradle") || has(p, "build.gradle.kts") {
        return Some("gradle bootRun".to_owned());
    }
    if has(p, "manage.py") {
        return Some(concat(python, " manage.py runserver"));
    }
    if has(p, "pyproject.toml") {
        return Some("uv run".to_owned());
    }
    if has(p, "requirements.txt") {
        return Some(concat(python, " main.py"));
    }
    if has(p, "Gemfile") {
        return Some("bundle exec rails server".to_owned());
    }
    if has(p, "mix.exs") {
        return Some("mix phx.server".to_owned());
    }
    if has(p, "composer.json") {
        if has(p, "artisan") {
            return Some("php artisan serve".to_owned());
        }
        return Some("php -S localhost:8000".to_owned());
    }
    if has(p, "Program.cs") || has(p, "Program.fs") {
        return Some("dotnet run".to_owned());
    }
    if has(p, "main.py") {
        match read_to_string(p, "main.py") {
            Some(content) => {
                let c = content.as_str();
                if contains(c, "FastAPI") || contains(c, "uvicorn") {
                    return Some("uvicorn main:app --reload".to_owned());
                }
                if contains(c, "flask") || contains(c, "Flask") {
                    return Some("flask run".to_owned());
                }
            },
            None => {},
        }
        return Some(concat(python, " main.py"));
    }
    if has(p, "index.js") || has(p, "index.ts") {
        return Some("node index.js".to_owned());
    }
    if has(p, "server.js") {
        return Some("node server.js".to_owned());
    }
    if has(p, "Makefile") {
        match read_to_string(p, "Makefile") {
            Some(content) => {
                let c = content.as_str();
                if contains(c, "dev:") {
                    return Some("make dev".to_owned());
                }
                if contains(c, "run:") {
                    return Some("make run".to_owned());
                }
                if contains(c, "start:") {
                    return Some("make start".to_owned());
                }
            },
            None => {},
        }
        return Some("make".to_owned());
    }
    None
}

/// The primary service of a directory: `Dev`, running its primary command.
pub fn detect_primary(p: &DirProbe, tools: &Toolchain) -> (r: Option<Service>)
    ensures
        match r {
            Some(s) => primary_cmd(*p, tools.python@) matches Some(c) && s@ == fresh_service(
                "Dev"@,
                c,
                None,
            ),
            None => primary_cmd(*p, tools.python@) is None,
        },
{
    match primary_command(p, tools) {
        Some(cmd) => Some(Service::new("Dev", cmd.as_str())),
        None => None,
    }
}

/// The display name of a Docker Compose service that detection knows.
pub open spec fn compose_display(key: Seq<char>) -> Option<Seq<char>> {
    if key == "db"@ {
        Some("Database"@)
    } else if key == "database"@ {
        Some("Database"@)
    } else if key == "postgres"@ {
        Some("Database"@)
    } else if key == "mysql"@ {
        Some("Database"@)
    } else if key == "mariadb"@ {
        Some("Database"@)
    } else if key == "mongodb"@ {
        Some("MongoDB"@)
    } else if key == "mongo"@ {
        Some("MongoDB"@)
    } else if key == "redis"@ {
        Some("Redis"@)
    } else if key == "cache"@ {
        Some("Cache"@)
    } else if key == "memcached"@ {
        Some("Cache"@)
    } else if key == "mq"@ {
        Some("Message Queue"@)
    } else if key == "rabbitmq"@ {
        Some("RabbitMQ"@)
    } else if key == "kafka"@ {
        Some("Kafka"@)
    } else if key == "zookeeper"@ {
        Some("ZooKeeper"@)
    } else if key == "redpanda"@ {
        Some("Redpanda"@)
    } else if key == "nats"@ {
        Some("NATS"@)
    } else if key == "elasticsearch"@ {
        Some("Elasticsearch"@)
    } else if key == "es"@ {
        Some("Elasticsearch"@)
    } else if key == "minio"@ {
        Some("MinIO"@)
    } else if key == "prometheus"@ {
        Some("Prometheus"@)
    } else if key == "grafana"@ {
        Some("Grafana"@)
    } else if key == "alertmanager"@ {
        Some("Alertmanager"@)
    } else if key == "loki"@ {
        Some("Loki"@)
    } else if key == "tempo"@ {
        Some("Tempo"@)
    } else if key == "nginx"@ {
        Some("Nginx"@)
    } else if key == "traefik"@ {
        Some("Traefik"@)
    } else if key == "caddy"@ {
        Some("Caddy"@)
    } else if key == "vault"@ {
        Some("Vault"@)
    } else if key == "consul"@ {
        Some("Consul"@)
    } else if key == "keycloak"@ {
        Some("Keycloak"@)
    } else if key == "solr"@ {
        Some("Solr"@)
    } else if key == "cassandra"@ {
        Some("Cassandra"@)
    } else if key == "clickhouse"@ {
        Some("ClickHouse"@)
    } else if key == "mailhog"@ {
        Some("MailHog"@)
    } else if key == "mailpit"@ {
        Some("Mailpit"@)
    } else if key == "adminer"@ {
        Some("Adminer"@)
    } else if key == "pgadmin"@ {
        Some("pgAdmin"@)
    } else if key == "phpmyadmin"@ {
        Some("phpMyAdmin"@)
    } else if key == "s3"@ {
        Some("S3 (MinIO)"@)
    } else if key == "storage"@ {
        Some("Storage"@)
    } else {
        None
    }
}

/// Looks a Docker Compose service name up in the known table.
pub fn known_compose_service(key: &str) -> (r: Option<&'static str>)
    ensures
        match r {
            Some(d) => compose_display(key@) == Some(d@),
            None => compose_display(key@) is None,
        },
{
    if str_eq(key, "db") {
        Some("Database")
    } else if str_eq(key, "database") {
        Some("Database")
    } else if str_eq(key, "postgres") {
        Some("Database")
    } else if str_eq(key, "mysql") {
        Some("Database")
    } else if str_eq(key, "mariadb") {
        Some("Database")
    } else if str_eq(key, "mongodb") {
        Some("MongoDB")
    } else if str_eq(key, "mongo") {
        Some("MongoDB")
    } else if str_eq(key, "redis") {
        Some("Redis")
    } else if str_eq(key, "cache") {
        Some("Cache")
    } else if str_eq(key, "memcached") {
        Some("Cache")
    } else if str_eq(key, "mq") {
        Some("Message Queue")
    } else if str_eq(key, "rabbitmq") {
        Some("RabbitMQ")
    } else if str_eq(key, "kafka") {
        Some("Kafka")
    } else if str_eq(key, "zookeeper") {
        Some("ZooKeeper")
    } else if str_eq(key, "redpanda") {
        Some("Redpanda")
    } else if str_eq(key, "nats") {
        Some("NATS")
    } else if str_eq(key, "elasticsearch") {
        Some("Elasticsearch")
    } else if str_eq(key, "es") {
        Some("Elasticsearch")
    } else if str_eq(key, "minio") {
        Some("MinIO")
    } else if str_eq(key, "prometheus") {
        Some("Prometheus")
    } else if str_eq(key, "grafana") {
        Some("Grafana")
    } else if str_eq(key, "alertmanager") {
        Some("Alertmanager")
    } else if str_eq(key, "loki") {
        Some("Loki")
    } else if str_eq(key, "tempo") {
        Some("Tempo")
    } else if str_eq(key, "nginx") {
        Some("Nginx")
    } else if str_eq(key, "traefik") {
        Some("Traefik")
    } else if str_eq(key, "caddy") {
        Some("Caddy")
    } else if str_eq(key, "vault") {
        Some("Vault")
    } else if str_eq(key, "consul") {
        Some("Consul")
    } else if str_eq(key, "keycloak") {
        Some("Keycloak")
    } else if str_eq(key, "solr") {
        Some("Solr")
    } else if str_eq(key, "cassandra") {
        Some("Cassandra")
    } else if str_eq(key, "clickhouse") {
        Some("ClickHouse")
    } else if str_eq(key, "mailhog") {
        Some("MailHog")
    } else if str_eq(key, "mailpit") {
        Some("Mailpit")
    } else if str_eq(key, "adminer") {
        Some("Adminer")
    } else if str_eq(key, "pgadmin") {
        Some("pgAdmin")
    } else if str_eq(key, "phpmyadmin") {
        Some("phpMyAdmin")
    } else if str_eq(key, "s3") {
        Some("S3 (MinIO)")
    } else if str_eq(key, "storage") {
        Some("Storage")
    } else {
        None
    }
}

/// The directory holds a file that marks a project.
pub open spec fn has_project_file(p: DirProbe) -> bool {
    probe_has(p, "package.json"@)
        || probe_has(p, "Cargo.toml"@)
        || probe_has(p, "go.mod"@)
        || probe_has(p, "pom.xml"@)
        || probe_has(p, "build.gradle"@)
        || probe_has(p, "build.gradle.kts"@)
        || probe_has(p, "manage.py"@)
        || probe_has(p, "pyproject.toml"@)
        || probe_has(p, "requirements.txt"@)
        || probe_has(p, "Gemfile"@)
        || probe_has(p, "mix.exs"@)
        || probe_has(p, "composer.json"@)
        || probe_has(p, "Program.cs"@)
        || probe_has(p, "Program.fs"@)
        || probe_has(p, "main.py"@)
        || probe_has(p, "index.js"@)
        || probe_has(p, "index.ts"@)
        || probe_has(p, "server.js"@)
        || probe_has(p, "Makefile"@)
        || probe_has(p, "Dockerfile"@)
        || probe_has(p, "docker-compose.yml"@)
        || probe_has(p, "docker-compose.yaml"@)
        || probe_has(p, "compose.yml"@)
        || probe_has(p, "compose.yaml"@)
        || probe_has(p, "flake.nix"@)
        || probe_has(p, "justfile"@)
        || probe_has(p, "Taskfile.yml"@)
        || probe_has(p, "Taskfile.yaml"@)
}

pub fn has_any_project_file(p: &DirProbe) -> (r: bool)
    ensures
        r == has_project_file(*p),
{
    has(p, "package.json")
        || has(p, "Cargo.toml")
        || has(p, "go.mod")
        || has(p, "pom.xml")
        || has(p, "build.gradle")
        || has(p, "build.gradle.kts")
        || has(p, "manage.py")
        || has(p, "pyproject.toml")
        || has(p, "requirements.txt")
        || has(p, "Gemfile")
        || has(p, "mix.exs")
        || has(p, "composer.json")
        || has(p, "Program.cs")
        || has(p, "Program.fs")
        || has(p, "main.py")
        || has(p, "index.js")
        || has(p, "index.ts")
        || has(p, "server.js")
        || has(p, "Makefile")
        || has(p, "Dockerfile")
        || has(p, "docker-compose.yml")
        || has(p, "docker-compose.yaml")
        || has(p, "compose.yml")
        || has(p, "compose.yaml")
        || has(p, "flake.nix")
        || has(p, "justfile")
        || has(p, "Taskfile.yml")
        || has(p, "Taskfile.yaml")
}

/// Subdirectories detection skips: build output, caches, vendored code and
/// hidden directories.
pub open spec fn ignored_subdir(name: Seq<char>) -> bool {
    name == "node_modules"@
        || name == ".git"@
        || name == "target"@
        || name == "dist"@
        || name == "build"@
        || name == ".next"@
        || name == ".svelte-kit"@
        || name == ".cache"@
        || name == "vendor"@
        || name == "__pycache__"@
        || is_prefix("."@, name)
}

pub fn is_ignored_subdir(name: &str) -> (r: bool)
    ensures
        r == ignored_subdir(name@),
{
    str_eq(name, "node_modules")
        || str_eq(name, ".git")
        || str_eq(name, "target")
        || str_eq(name, "dist")
        || str_eq(name, "build")
        || str_eq(name, ".next")
        || str_eq(name, ".svelte-kit")
        || str_eq(name, ".cache")
        || str_eq(name, "vendor")
        || str_eq(name, "__pycache__")
        || starts_with(name, ".")
}

/// Appends a service to a list.
fn push_service(v: &mut Vec<Service>, s: Service)
    ensures
        services_view(final(v)@) == services_view(old(v)@).push(s@),
{
    let ghost before = v@;
    v.push(s);
    assert(services_view(v@) =~= services_view(before).push(s@));
}

/// A list has a service of that name.
pub open spec fn has_name(v: Seq<ServiceView>, name: Seq<char>) -> bool {
    exists|k: int| 0 <= k < v.len() && v[k].name == name
}

fn has_service_named(v: &Vec<Service>, name: &str) -> (r: bool)
    ensures
        r == has_name(services_view(v@), name@),
{
    let mut i: usize = 0;
    while i < v.len()
        invariant
            i <= v.len(),
            forall|k: int| 0 <= k < i ==> v@[k].name@ != name@,
        decreases v.len() - i,
    {
        if str_eq(v[i].name.as_str(), name) {
            assert(services_view(v@)[i as int].name == name@);
            return true;
        }
        i += 1;
    }
    false
}

/// The text of the Compose file: `docker-compose.yml`, `docker-compose.yaml`,
/// `compose.yml` or `compose.yaml`, the first that could be read.
pub open spec fn compose_text(p: DirProbe) -> Option<Seq<char>> {
    if probe_text(p, "docker-compose.yml"@) is Some {
        probe_text(p, "docker-compose.yml"@)
    } else if probe_text(p, "docker-compose.yaml"@) is Some {
        probe_text(p, "docker-compose.yaml"@)
    } else if probe_text(p, "compose.yml"@) is Some {
        probe_text(p, "compose.yml"@)
    } else {
        probe_text(p, "compose.yaml"@)
    }
}

/// A line that starts a top-level key of a YAML file: not blank, not
/// indented, not a comment.
pub open spec fn top_level_line(line: Seq<char>) -> bool {
    line.len() > 0 && !is_ws(line[0]) && line[0] != '#'
}

/// The unindented line `services:` that opens the services section.
pub open spec fn opens_services(line: Seq<char>) -> bool {
    top_level_line(line) && trim_spec(line) == "services:"@
}

/// The number of spaces a line starts with.
pub open spec fn lead_spaces(line: Seq<char>) -> nat
    decreases line.len(),
{
    if line.len() > 0 && line[0] == ' ' {
        1 + lead_spaces(line.drop_first())
    } else {
        0
    }
}

/// Scans the lines of a Compose file. Only the section that an unindented
/// `services:` line opens counts, up to the next top-level key. In it,
/// blank lines and comments are skipped; the first other line fixes the
/// indentation of the section's keys (`indent`), and deeper or shallower
/// lines, which belong to a service's own settings, do not count. Each key
/// line at that indentation whose trimmed text ends with `:` names a
/// service, and a known name whose display name is not listed yet adds
/// `<prefix> up <name>`.
pub open spec fn compose_scan(
    lines: Seq<Seq<char>>,
    in_services: bool,
    indent: Option<nat>,
    acc: Seq<ServiceView>,
    prefix: Seq<char>,
) -> Seq<ServiceView>
    decreases lines.len(),
{
    if lines.len() == 0 {
        acc
    } else {
        let line = lines[0];
        let t = trim_spec(line);
        let rest = lines.drop_first();
        if !in_services || top_level_line(line) {
            compose_scan(rest, opens_services(line), None, acc, prefix)
        } else if t.len() == 0 || t[0] == '#' {
            compose_scan(rest, true, indent, acc, prefix)
        } else {
            let d = lead_spaces(line);
            let ind = match indent {
                Some(k) => k,
                None => d,
            };
            if d != ind || !is_suffix(":"@, t) {
                compose_scan(rest, true, Some(ind), acc, prefix)
            } else {
                let key = trim_end_char_spec(t, ':');
                match compose_display(key) {
                    Some(name) => if has_name(acc, name) {
                        compose_scan(rest, true, Some(ind), acc, prefix)
                    } else {
                        compose_scan(
                            rest,
                            true,
                            Some(ind),
                            acc.push(fresh_service(name, prefix + " up "@ + key, None)),
                            prefix,
                        )
                    },
                    None => compose_scan(rest, true, Some(ind), acc, prefix),
                }
            }
        }
    }
}

fn count_lead_spaces(v: &Vec<char>) -> (r: usize)
    ensures
        r == lead_spaces(v@),
{
    let mut i: usize = 0;
    assert(v@.skip(0) =~= v@);
    while i < v.len() && v[i] == ' '
        invariant
            i <= v.len(),
            lead_spaces(v@) == i + lead_spaces(v@.skip(i as int)),
        decreases v.len() - i,
    {
        assert(v@.skip(i as int)[0] == v@[i as int]);
        assert(v@.skip(i as int).drop_first() =~= v@.skip(i + 1));
        i += 1;
    }
    if i < v.len() {
        assert(v@.skip(i as int)[0] == v@[i as int]);
    }
    i
}

/// The Docker Compose services of a directory, run with `prefix`.
pub open spec fn compose_services(p: DirProbe, prefix: Seq<char>) -> Seq<ServiceView> {
    match compose_text(p) {
        Some(c) => compose_scan(lines_spec(c), false, None, seq![], prefix),
        None => seq![],
    }
}

fn compose_content(p: &DirProbe) -> (r: Option<String>)
    ensures
        match r {
            Some(c) => compose_text(*p) == Some(c@),
            None => compose_text(*p) is None,
        },
{
    match read_to_string(p, "docker-compose.yml") {
        Some(c) => Some(c),
        None => match read_to_string(p, "docker-compose.yaml") {
            Some(c) => Some(c),
            None => match read_to_string(p, "compose.yml") {
                Some(c) => Some(c),
                None => read_to_string(p, "compose.yaml"),
            },
        },
    }
}

/// The known Docker Compose services of a directory (see `compose_scan`).
pub fn detect_compose(p: &DirProbe, tools: &Toolchain) -> (r: Vec<Service>)
    ensures
        services_view(r@) == compose_services(*p, tools.compose@),
{
    let content = match compose_content(p) {
        Some(c) => c,
        None => {
            let r: Vec<Service> = Vec::new();
            assert(services_view(r@) =~= Seq::<ServiceView>::empty());
            return r;
        },
    };
    let prefix = tools.compose.as_str();
    let ls = lines(content.as_str());
    let ghost all = strs_view(ls@);
    let mut services: Vec<Service> = Vec::new();
    let mut in_services = false;
    let mut has_ind = false;
    let mut ind: usize = 0;
    let mut i: usize = 0;
    assert(all.skip(0) =~= all);
    assert(services_view(services@) =~= Seq::<ServiceView>::empty());
    while i < ls.len()
        invariant
            i <= ls.len(),
            all == strs_view(ls@),
            prefix@ == tools.compose@,
            compose_scan(all, false, None, seq![], prefix@) == compose_scan(
                all.skip(i as int),
                in_services,
                if has_ind {
                    Some(ind as nat)
                } else {
                    None
                },
                services_view(services@),
                prefix@,
            ),
        decreases ls.len() - i,
    {
        let line = ls[i].as_str();
        assert(all.skip(i as int)[0] == line@);
        assert(all.skip(i as int).drop_first() =~= all.skip(i + 1));
        let t = trim(line);
        let v = crate::text::chars_of(line);
        let tv = crate::text::chars_of(t.as_str());
        let top = v.len() > 0 && !crate::text::is_whitespace(v[0]) && v[0] != '#';
        if !in_services || top {
            in_services = top && str_eq(t.as_str(), "services:");
            has_ind = false;
        } else if tv.len() == 0 || tv[0] == '#' {
        } else {
            let d = count_lead_spaces(&v);
            if !has_ind {
                ind = d;
                has_ind = true;
            }
            if d == ind && ends_with(t.as_str(), ":") {
                let key = trim_end_char(t.as_str(), ':');
                match known_compose_service(key.as_str()) {
                    Some(display) => {
                        if !has_service_named(&services, display) {
                            let mut cmd = prefix.to_owned();
                            cmd.append(" up ");
                            cmd.append(key.as_str());
                            push_service(&mut services, Service::new(display, cmd.as_str()));
                        }
                    },
                    None => {},
                }
            }
        }
        i += 1;
    }
    assert(all.skip(i as int) =~= Seq::<Seq<char>>::empty());
    services
}

/// A file name with the extension `tf`: it ends in `.tf` after a non-empty stem.
pub open spec fn is_tf_file(name: Seq<char>) -> bool {
    name.len() > 3 && is_suffix(".tf"@, name)
}

pub open spec fn has_tf_file(p: DirProbe) -> bool {
    exists|i: int| 0 <= i < p.entries@.len() && is_tf_file(p.entries@[i]@)
}

fn has_terraform(p: &DirProbe) -> (r: bool)
    ensures
        r == has_tf_file(*p),
{
    let mut i: usize = 0;
    while i < p.entries.len()
        invariant
            i <= p.entries.len(),
            forall|k: int| 0 <= k < i ==> !is_tf_file(p.entries@[k]@),
        decreases p.entries.len() - i,
    {
        let e = p.entries[i].as_str();
        if e.unicode_len() > 3 && ends_with(e, ".tf") {
            return true;
        }
        i += 1;
    }
    false
}

/// The tooling services of a directory, in this order: Docker build, `just`
/// (unless a `Makefile` is there), Taskfile, Terraform, Nix.
pub open spec fn tooling_services(p: DirProbe) -> Seq<ServiceView> {
    (if probe_has(p, "Dockerfile"@) {
        seq![fresh_service("Docker Build"@, "docker build -t app ."@, None)]
    } else {
        seq![]
    }) + (if probe_has(p, "justfile"@) && !probe_has(p, "Makefile"@) {
        seq![fresh_service("Tasks"@, "just"@, None)]
    } else {
        seq![]
    }) + (if probe_has(p, "Taskfile.yml"@) || probe_has(p, "Taskfile.yaml"@) {
        seq![fresh_service("Tasks"@, "task dev"@, None)]
    } else {
        seq![]
    }) + (if has_tf_file(p) {
        seq![fresh_service("Terraform"@, "terraform plan"@, None)]
    } else {
        seq![]
    }) + (if probe_has(p, "flake.nix"@) {
        seq![fresh_service("Nix Shell"@, "nix develop"@, None)]
    } else {
        seq![]
    })
}

pub fn detect_tooling(p: &DirProbe) -> (r: Vec<Service>)
    ensures
        services_view(r@) == tooling_services(*p),
{
    let mut services: Vec<Service> = Vec::new();
    let ghost e = Seq::<ServiceView>::empty();
    let ghost a = if probe_has(*p, "Dockerfile"@) {
        seq![fresh_service("Docker Build"@, "docker build -t app ."@, None)]
    } else {
        e
    };
    let ghost b = if probe_has(*p, "justfile"@) && !probe_has(*p, "Makefile"@) {
        seq![fresh_service("Tasks"@, "just"@, None)]
    } else {
        e
    };
    let ghost c = if probe_has(*p, "Taskfile.yml"@) || probe_has(*p, "Taskfile.yaml"@) {
        seq![fresh_service("Tasks"@, "task dev"@, None)]
    } else {
        e
    };
    let ghost d = if has_tf_file(*p) {
        seq![fresh_service("Terraform"@, "terraform plan"@, None)]
    } else {
        e
    };
    let ghost f = if probe_has(*p, "flake.nix"@) {
        seq![fresh_service("Nix Shell"@, "nix develop"@, None)]
    } else {
        e
    };
    assert(services_view(services@) =~= e);
    if has(p, "Dockerfile") {
        push_service(&mut services, Service::new("Docker Build", "docker build -t app ."));
    }
    assert(services_view(services@) =~= a);
    if has(p, "justfile") && !(has(p, "Makefile")) {
        push_service(&mut services, Service::new("Tasks", "just"));
    }
    assert(services_view(services@) =~= a + b);
    if has(p, "Taskfile.yml") || has(p, "Taskfile.yaml") {
        push_service(&mut services, Service::new("Tasks", "task dev"));
    }
    assert(services_view(services@) =~= a + b + c);
    if has_terraform(p) {
        push_service(&mut services, Service::new("Terraform", "terraform plan"));
    }
    assert(services_view(services@) =~= a + b + c + d);
    if has(p, "flake.nix") {
        push_service(&mut services, Service::new("Nix Shell", "nix develop"));
    }
    assert(services_view(services@) =~= a + b + c + d + f);
    services
}

/// What `char::to_uppercase` yields for a character.
pub uninterp spec fn char_uppercase(c: char) -> Seq<char>;

/// `char::to_uppercase`, collected into a string. The contract names the result.
#[verifier::external_body]
fn uppercase_of(c: char) -> (r: String)
    ensures
        r@ == char_uppercase(c),
{
    c.to_uppercase().to_string()
}

/// `s` with its first character in upper case.
pub open spec fn capitalize_spec(s: Seq<char>) -> Seq<char> {
    if s.len() == 0 {
        seq![]
    } else {
        char_uppercase(s[0]) + s.drop_first()
    }
}

pub fn capitalize(s: &str) -> (r: String)
    ensures
        r@ == capitalize_spec(s@),
{
    let v = crate::text::chars_of(s);
    if v.len() == 0 {
        return String::new();
    }
    let mut out = uppercase_of(v[0]);
    let tail = crate::text::string_of_range(&v, 1, v.len());
    out.append(tail.as_str());
    assert(v@.drop_first() =~= v@.subrange(1, v@.len() as int));
    out
}

/// `sv` moved to the subdirectory `dir` under the name `name`.
pub open spec fn renamed_in(sv: ServiceView, name: Seq<char>, dir: Seq<char>) -> ServiceView {
    ServiceView { name, dir: Some(dir), id: id_spec(name, Some(dir)), ..sv }
}

/// `sv` moved to the subdirectory `dir`.
pub open spec fn moved_to(sv: ServiceView, dir: Seq<char>) -> ServiceView {
    renamed_in(sv, sv.name, dir)
}

pub open spec fn all_moved_to(v: Seq<ServiceView>, dir: Seq<char>) -> Seq<ServiceView> {
    v.map_values(|s: ServiceView| moved_to(s, dir))
}

/// The services of one subdirectory: its primary service, named after the
/// subdirectory, its Compose and tooling services, all run there; and
/// where none is found but a project file is there, `npm run dev` under
/// the subdirectory's name.
pub open spec fn subdir_services(sd: SubdirProbe, tools: Toolchain) -> Seq<ServiceView> {
    let n = sd.name@;
    let p = sd.probe;
    let primary = match primary_cmd(p, tools.python@) {
        Some(c) => seq![renamed_in(fresh_service("Dev"@, c, None), capitalize_spec(n), n)],
        None => seq![],
    };
    let found = primary + all_moved_to(compose_services(p, tools.compose@), n) + all_moved_to(
        tooling_services(p),
        n,
    );
    if found.len() == 0 && has_project_file(p) {
        seq![renamed_in(fresh_service("Dev"@, "npm run dev"@, None), capitalize_spec(n), n)]
    } else {
        found
    }
}

/// The services of the subdirectories that are not skipped, in order.
pub open spec fn subdirs_services(subdirs: Seq<SubdirProbe>, tools: Toolchain) -> Seq<ServiceView>
    decreases subdirs.len(),
{
    if subdirs.len() == 0 {
        seq![]
    } else {
        (if ignored_subdir(subdirs[0].name@) {
            seq![]
        } else {
            subdir_services(subdirs[0], tools)
        }) + subdirs_services(subdirs.drop_first(), tools)
    }
}

pub proof fn lemma_view_remove_first(s: Seq<Service>)
    requires
        s.len() > 0,
    ensures
        services_view(s.remove(0)) == services_view(s).skip(1),
        services_view(s)[0] == s[0]@,
{
    assert(services_view(s.remove(0)) =~= services_view(s).skip(1));
}

fn move_all_to(v: Vec<Service>, dir: &str) -> (r: Vec<Service>)
    ensures
        services_view(r@) == all_moved_to(services_view(v@), dir@),
{
    let ghost orig = services_view(v@);
    let mut rest = v;
    let mut out: Vec<Service> = Vec::new();
    let n = rest.len();
    let mut i: usize = 0;
    assert(orig.skip(0) =~= orig);
    assert(services_view(out@) =~= all_moved_to(orig, dir@).take(0));
    while rest.len() > 0
        invariant
            i + rest.len() == n,
            orig.len() == n,
            services_view(rest@) == orig.skip(i as int),
            services_view(out@) == all_moved_to(orig, dir@).take(i as int),
        decreases rest.len(),
    {
        let ghost prev = rest@;
        proof {
            lemma_view_remove_first(prev);
        }
        let mut s = rest.remove(0);
        assert(s@ == orig[i as int]);
        assert(services_view(rest@) =~= orig.skip(i + 1));
        s.dir = Some(dir.to_owned());
        s.update_id();
        push_service(&mut out, s);
        assert(all_moved_to(orig, dir@).take(i + 1) =~= all_moved_to(orig, dir@).take(i as int).push(
            moved_to(orig[i as int], dir@),
        ));
        i += 1;
    }
    assert(all_moved_to(orig, dir@).take(n as int) =~= all_moved_to(orig, dir@));
    out
}

fn append_services(v: &mut Vec<Service>, extra: Vec<Service>)
    ensures
        services_view(final(v)@) == services_view(old(v)@) + services_view(extra@),
{
    let ghost before = v@;
    let mut extra = extra;
    let ghost ex = extra@;
    v.append(&mut extra);
    assert(services_view(v@) =~= services_view(before) + services_view(ex));
}

/// The services of one subdirectory (see `subdir_services`).
pub fn detect_subdir(sd: &SubdirProbe, tools: &Toolchain) -> (r: Vec<Service>)
    ensures
        services_view(r@) == subdir_services(*sd, *tools),
{
    let name = sd.name.as_str();
    let p = &sd.probe;
    let mut found: Vec<Service> = Vec::new();
    match detect_primary(p, tools) {
        Some(mut svc) => {
            svc.name = capitalize(name);
            svc.dir = Some(name.to_owned());
            svc.update_id();
            push_service(&mut found, svc);
        },
        None => {
            assert(services_view(found@) =~= Seq::<ServiceView>::empty());
        },
    }
    let compose = move_all_to(detect_compose(p, tools), name);
    append_services(&mut found, compose);
    let tooling = move_all_to(detect_tooling(p), name);
    append_services(&mut found, tooling);
    let ghost n = sd.name@;
    let ghost spec_found = (match primary_cmd(*p, tools.python@) {
        Some(c) => seq![renamed_in(fresh_service("Dev"@, c, None), capitalize_spec(n), n)],
        None => Seq::<ServiceView>::empty(),
    }) + all_moved_to(compose_services(*p, tools.compose@), n) + all_moved_to(tooling_services(*p), n);
    assert(services_view(found@) == spec_found);
    if found.len() == 0 && has_any_project_file(p) {
        assert(spec_found.len() == 0);
        let mut svc = Service::new("Dev", "npm run dev");
        svc.name = capitalize(name);
        svc.dir = Some(name.to_owned());
        svc.update_id();
        let mut only: Vec<Service> = Vec::new();
        push_service(&mut only, svc);
        assert(services_view(only@) =~= seq![svc@]);
        return only;
    }
    found
}

/// The services of the project's subdirectories (see `subdirs_services`).
pub fn detect_subdirs(project: &ProjectProbe, tools: &Toolchain) -> (r: Vec<Service>)
    ensures
        services_view(r@) == subdirs_services(project.subdirs@, *tools),
{
    let ghost all = project.subdirs@;
    let mut services: Vec<Service> = Vec::new();
    let mut i: usize = 0;
    assert(all.skip(0) =~= all);
    assert(services_view(services@) + subdirs_services(all, *tools) =~= subdirs_services(all, *tools));
    while i < project.subdirs.len()
        invariant
            i <= project.subdirs.len(),
            all == project.subdirs@,
            services_view(services@) + subdirs_services(all.skip(i as int), *tools) == subdirs_services(
                all,
                *tools,
            ),
        decreases project.subdirs.len() - i,
    {
        let sd = &project.subdirs[i];
        assert(all.skip(i as int)[0] == *sd);
        assert(all.skip(i as int).drop_first() =~= all.skip(i + 1));
        let ghost before = services_view(services@);
        if !is_ignored_subdir(sd.name.as_str()) {
            let found = detect_subdir(sd, tools);
            append_services(&mut services, found);
            assert(before + subdirs_services(all.skip(i as int), *tools) =~= services_view(services@)
                + subdirs_services(all.skip(i + 1), *tools));
        } else {
            assert(before + subdirs_services(all.skip(i as int), *tools) =~= services_view(services@)
                + subdirs_services(all.skip(i + 1), *tools));
        }
        i += 1;
    }
    assert(all.skip(i as int) =~= Seq::<SubdirProbe>::empty());
    assert(services_view(services@) + Seq::<ServiceView>::empty() =~= services_view(services@));
    services
}

/// A list has a service with that identifier.
pub open spec fn has_id(v: Seq<ServiceView>, id: Seq<char>) -> bool {
    exists|k: int| 0 <= k < v.len() && v[k].id == id
}

/// `base` followed by each service of `extra` whose identifier is not
/// listed yet.
pub open spec fn merge_spec(base: Seq<ServiceView>, extra: Seq<ServiceView>) -> Seq<ServiceView>
    decreases extra.len(),
{
    if extra.len() == 0 {
        base
    } else {
        let r = merge_spec(base, extra.drop_last());
        if has_id(r, extra.last().id) {
            r
        } else {
            r.push(extra.last())
        }
    }
}

fn has_service_id(v: &Vec<Service>, id: &str) -> (r: bool)
    ensures
        r == has_id(services_view(v@), id@),
{
    let mut i: usize = 0;
    while i < v.len()
        invariant
            i <= v.len(),
            forall|k: int| 0 <= k < i ==> v@[k].id@ != id@,
        decreases v.len() - i,
    {
        if str_eq(v[i].id.as_str(), id) {
            assert(services_view(v@)[i as int].id == id@);
            return true;
        }
        i += 1;
    }
    false
}

/// Merges two lists of services, keeping the first of each identifier
/// that `extra` repeats.
pub fn merge_services(base: Vec<Service>, extra: Vec<Service>) -> (r: Vec<Service>)
    ensures
        services_view(r@) == merge_spec(services_view(base@), services_view(extra@)),
{
    let ghost b = services_view(base@);
    let ghost ex = services_view(extra@);
    let mut result = base;
    let mut extra = extra;
    let n = extra.len();
    let mut i: usize = 0;
    assert(ex.skip(0) =~= ex);
    assert(ex.take(0) =~= Seq::<ServiceView>::empty());
    while extra.len() > 0
        invariant
            i + extra.len() == n,
            ex.len() == n,
            services_view(extra@) == ex.skip(i as int),
            services_view(result@) == merge_spec(b, ex.take(i as int)),
        decreases extra.len(),
    {
        let ghost prev = extra@;
        proof {
            lemma_view_remove_first(prev);
        }
        let e = extra.remove(0);
        assert(e@ == ex[i as int]);
        assert(services_view(extra@) =~= ex.skip(i + 1));
        assert(ex.take(i + 1).drop_last() =~= ex.take(i as int));
        assert(ex.take(i + 1).last() == ex[i as int]);
        if !has_service_id(&result, e.id.as_str()) {
            push_service(&mut result, e);
        }
        i += 1;
    }
    assert(ex.take(n as int) =~= ex);
    result
}

/// The services auto-detection finds: the primary and Compose services of
/// the root, then those of its subdirectories, then its tooling services,
/// each identifier kept once.
pub open spec fn detected_services(project: ProjectProbe, tools: Toolchain) -> Seq<ServiceView> {
    let root = project.root;
    let primary = match primary_cmd(root, tools.python@) {
        Some(c) => seq![fresh_service("Dev"@, c, None)],
        None => seq![],
    };
    let base = primary + compose_services(root, tools.compose@);
    merge_spec(merge_spec(base, subdirs_services(project.subdirs@, tools)), tooling_services(root))
}

pub fn detect_auto(project: &ProjectProbe, tools: &Toolchain) -> (r: Vec<Service>)
    ensures
        services_view(r@) == detected_services(*project, *tools),
{
    let mut services: Vec<Service> = Vec::new();
    match detect_primary(&project.root, tools) {
        Some(s) => push_service(&mut services, s),
        None => {},
    }
    assert(services_view(services@) =~= match primary_cmd(project.root, tools.python@) {
        Some(c) => seq![fresh_service("Dev"@, c, None)],
        None => Seq::<ServiceView>::empty(),
    });
    let compose = detect_compose(&project.root, tools);
    append_services(&mut services, compose);
    let subdirs = detect_subdirs(project, tools);
    let services = merge_services(services, subdirs);
    let tooling = detect_tooling(&project.root);
    merge_services(services, tooling)
}

/// The text of the configuration file: `rudder.toml`, else `.rudder.toml`.
pub open spec fn config_text(p: DirProbe) -> Option<Seq<char>> {
    if probe_text(p, "rudder.toml"@) is Some {
        probe_text(p, "rudder.toml"@)
    } else {
        probe_text(p, ".rudder.toml"@)
    }
}

/// The configuration file's text, for the caller to parse.
pub fn config_source(p: &DirProbe) -> (r: Option<String>)
    ensures
        match r {
            Some(c) => config_text(*p) == Some(c@),
            None => config_text(*p) is None,
        },
{
    match read_to_string(p, "rudder.toml") {
        Some(c) => Some(c),
        None => read_to_string(p, ".rudder.toml"),
    }
}

/// The service a configuration entry defines.
pub open spec fn config_service(e: ConfigEntry) -> ServiceView {
    let s = match e.dir {
        Some(d) => fresh_service(e.name@, e.cmd@, Some(d@)),
        None => fresh_service(e.name@, e.cmd@, None),
    };
    ServiceView { url: crate::service::opt_view(e.url), ..s }
}

/// The services of the configuration's entries, in order.
pub open spec fn config_entries_services(entries: Seq<ConfigEntry>) -> Seq<ServiceView> {
    entries.map_values(|e: ConfigEntry| config_service(e))
}

/// The services of a list whose name no earlier one has, in order.
pub open spec fn first_of_each_name(v: Seq<ServiceView>) -> Seq<ServiceView>
    decreases v.len(),
{
    if v.len() == 0 {
        seq![]
    } else {
        let r = first_of_each_name(v.drop_last());
        if has_name(r, v.last().name) {
            r
        } else {
            r.push(v.last())
        }
    }
}

/// The services the configuration defines: one per entry, an entry whose
/// name an earlier one already has dropped.
pub open spec fn config_services(entries: Seq<ConfigEntry>) -> Seq<ServiceView> {
    first_of_each_name(config_entries_services(entries))
}

/// The services the configuration defines (see `config_services`).
pub fn services_from_config(entries: &Vec<ConfigEntry>) -> (r: Vec<Service>)
    ensures
        services_view(r@) == config_services(entries@),
{
    let ghost all = config_entries_services(entries@);
    let mut out: Vec<Service> = Vec::new();
    let mut i: usize = 0;
    assert(all.take(0) =~= Seq::<ServiceView>::empty());
    while i < entries.len()
        invariant
            i <= entries.len(),
            all == config_entries_services(entries@),
            services_view(out@) == first_of_each_name(all.take(i as int)),
        decreases entries.len() - i,
    {
        let e = &entries[i];
        let mut svc = match &e.dir {
            Some(d) => Service::new_with_dir(e.name.as_str(), e.cmd.as_str(), d.as_str()),
            None => Service::new(e.name.as_str(), e.cmd.as_str()),
        };
        svc.url = match &e.url {
            Some(u) => Some(u.clone()),
            None => None,
        };
        assert(svc@ == all[i as int]);
        assert(all.take(i + 1).drop_last() =~= all.take(i as int));
        assert(all.take(i + 1).last() == all[i as int]);
        if !has_service_named(&out, svc.name.as_str()) {
            push_service(&mut out, svc);
        }
        i += 1;
    }
    assert(all.take(entries.len() as int) =~= all);
    out
}

/// The services of a project: those the configuration defines where it
/// defines any (it is then the only source), else those detected.
pub open spec fn services_for(project: ProjectProbe, config: Seq<ConfigEntry>, tools: Toolchain) -> Seq<ServiceView> {
    if config.len() > 0 {
        config_services(config)
    } else {
        detected_services(project, tools)
    }
}

/// The services `init` writes out: those detected, then those of the
/// configuration, each identifier kept once.
pub open spec fn services_for_init(project: ProjectProbe, config: Seq<ConfigEntry>, tools: Toolchain) -> Seq<ServiceView> {
    merge_spec(detected_services(project, tools), config_services(config))
}

/// The services of a project, where `config` holds the parsed entries of
/// its configuration file (empty where there is none or it does not parse).
pub fn detect_services_for(project: &ProjectProbe, config: &Vec<ConfigEntry>, tools: &Toolchain) -> (r: Vec<Service>)
    ensures
        services_view(r@) == services_for(*project, config@, *tools),
{
    if config.len() > 0 {
        services_from_config(config)
    } else {
        detect_auto(project, tools)
    }
}

/// The services `init` writes to the configuration file.
pub fn detect_services_for_init(project: &ProjectProbe, config: &Vec<ConfigEntry>, tools: &Toolchain) -> (r: Vec<Service>)
    ensures
        services_view(r@) == services_for_init(*project, config@, *tools),
{
    let detected = detect_auto(project, tools);
    let from_config = services_from_config(config);
    merge_services(detected, from_config)
}

} // verus!

verus! {

/// No two services share an identifier.
pub open spec fn unique_ids(v: Seq<ServiceView>) -> bool {
    forall|i: int, j: int| 0 <= i < j < v.len() ==> v[i].id != v[j].id
}

/// Merging keeps `base` as it is, in front; adds each identifier of `extra`
/// that is missing, so that every identifier of either is listed; and
/// lists no identifier twice where `base` did not.
pub proof fn lemma_merge_dedups(base: Seq<ServiceView>, extra: Seq<ServiceView>)
    ensures
        merge_spec(base, extra).len() >= base.len(),
        merge_spec(base, extra).take(base.len() as int) == base,
        forall|k: int| 0 <= k < extra.len() ==> has_id(merge_spec(base, extra), #[trigger] extra[k].id),
        unique_ids(base) ==> unique_ids(merge_spec(base, extra)),
    decreases extra.len(),
{
    if extra.len() > 0 {
        let rest = extra.drop_last();
        lemma_merge_dedups(base, rest);
        let r = merge_spec(base, rest);
        let e = extra.last();
        let m = merge_spec(base, extra);
        if !has_id(r, e.id) {
            assert(m.take(base.len() as int) =~= r.take(base.len() as int));
            assert(m[r.len() as int] == e);
        }
        assert forall|k: int| 0 <= k < extra.len() implies has_id(m, #[trigger] extra[k].id) by {
            if k < extra.len() - 1 {
                assert(rest[k] == extra[k]);
                let j = choose|j: int| 0 <= j < r.len() && r[j].id == rest[k].id;
                assert(m[j] == r[j]);
            } else if has_id(r, e.id) {
                let j = choose|j: int| 0 <= j < r.len() && r[j].id == e.id;
                assert(m[j] == r[j]);
            } else {
                assert(m[r.len() as int] == e);
            }
        }
    } else {
        assert(base.take(base.len() as int) =~= base);
    }
}

proof fn lemma_first_of_each_name(v: Seq<ServiceView>)
    ensures
        forall|k: int| 0 <= k < v.len() ==> has_name(first_of_each_name(v), #[trigger] v[k].name),
        forall|i: int, j: int|
            0 <= i < j < first_of_each_name(v).len() ==> (#[trigger] first_of_each_name(v)[i]).name
                != (#[trigger] first_of_each_name(v)[j]).name,
        forall|i: int|
            0 <= i < first_of_each_name(v).len() ==> v.contains(#[trigger] first_of_each_name(v)[i]),
    decreases v.len(),
{
    if v.len() > 0 {
        let t = v.drop_last();
        lemma_first_of_each_name(t);
        let r = first_of_each_name(t);
        let f = first_of_each_name(v);
        assert forall|k: int| 0 <= k < v.len() implies has_name(f, #[trigger] v[k].name) by {
            if k < t.len() {
                assert(t[k] == v[k]);
                let j = choose|j: int| 0 <= j < r.len() && r[j].name == t[k].name;
                assert(f[j] == r[j]);
            } else if has_name(r, v.last().name) {
                let j = choose|j: int| 0 <= j < r.len() && r[j].name == v.last().name;
                assert(f[j] == r[j]);
            } else {
                assert(f[r.len() as int] == v.last());
            }
        }
        assert forall|i: int| 0 <= i < f.len() implies v.contains(#[trigger] f[i]) by {
            if i < r.len() {
                assert(f[i] == r[i]);
                let k = choose|k: int| 0 <= k < t.len() && t[k] == r[i];
                assert(v[k] == t[k]);
            } else {
                assert(v[v.len() - 1] == v.last());
            }
        }
        assert forall|i: int, j: int| 0 <= i < j < f.len() implies (#[trigger] f[i]).name != (#[trigger] f[j]).name by {
            if j < r.len() {
                assert(f[i] == r[i] && f[j] == r[j]);
            } else {
                assert(f[i] == r[i]);
            }
        }
    }
}

/// A configuration that defines services is the only source of them: it
/// lists a service for each entry's name, each name once, each one the
/// service of an entry.
pub proof fn lemma_config_is_sole_source(project: ProjectProbe, config: Seq<ConfigEntry>, tools: Toolchain)
    requires
        config.len() > 0,
    ensures
        services_for(project, config, tools) == config_services(config),
        forall|k: int| 0 <= k < config.len() ==> has_name(services_for(project, config, tools), #[trigger] config[k].name@),
        forall|i: int, j: int|
            0 <= i < j < services_for(project, config, tools).len() ==> (#[trigger] services_for(project, config, tools)[i]).name
                != (#[trigger] services_for(project, config, tools)[j]).name,
        forall|i: int|
            0 <= i < services_for(project, config, tools).len() ==> config_entries_services(config).contains(
                #[trigger] services_for(project, config, tools)[i],
            ),
{
    let all = config_entries_services(config);
    lemma_first_of_each_name(all);
    assert forall|k: int| 0 <= k < config.len() implies has_name(services_for(project, config, tools), #[trigger] config[k].name@) by {
        assert(all[k].name == config[k].name@);
    }
}

/// Without configured services, the services are those detected.
pub proof fn lemma_detection_without_config(project: ProjectProbe, config: Seq<ConfigEntry>, tools: Toolchain)
    requires
        config.len() == 0,
    ensures
        services_for(project, config, tools) == detected_services(project, tools),
{
}

/// A readable `package.json` with a `dev` script makes the primary service
/// a Node one, whatever else the directory holds (one primary service per
/// directory, Node first).
pub proof fn lemma_node_comes_first(p: DirProbe, python: Seq<char>, content: Seq<char>)
    requires
        probe_has(p, "package.json"@),
        probe_text(p, "package.json"@) == Some(content),
        has_sub(content, "\"dev\""@),
    ensures
        primary_cmd(p, python) == Some(node_dev_cmd(content, package_manager_spec(p))),
{
}

/// Every service found in a subdirectory runs there, under an identifier
/// made of the subdirectory and its name.
pub proof fn lemma_subdir_services_run_there(sd: SubdirProbe, tools: Toolchain)
    ensures
        forall|k: int|
            0 <= k < subdir_services(sd, tools).len() ==> (#[trigger] subdir_services(sd, tools)[k]).dir == Some(
                sd.name@,
            ) && subdir_services(sd, tools)[k].id == id_spec(subdir_services(sd, tools)[k].name, Some(sd.name@)),
{
    let n = sd.name@;
    let p = sd.probe;
    let primary = match primary_cmd(p, tools.python@) {
        Some(c) => seq![renamed_in(fresh_service("Dev"@, c, None), capitalize_spec(n), n)],
        None => Seq::<ServiceView>::empty(),
    };
    let c = all_moved_to(compose_services(p, tools.compose@), n);
    let t = all_moved_to(tooling_services(p), n);
    let found = primary + c + t;
    assert forall|k: int| 0 <= k < found.len() implies (#[trigger] found[k]).dir == Some(n) && found[k].id
        == id_spec(found[k].name, Some(n)) by {
        if k < primary.len() {
        } else if k < primary.len() + c.len() {
            assert(found[k] == c[k - primary.len()]);
        } else {
            assert(found[k] == t[k - primary.len() - c.len()]);
        }
    }
}

} // verus!

verus! {

proof fn lemma_display_not_dev(key: Seq<char>)
    ensures
        compose_display(key) != Some("Dev"@),
{
    reveal_strlit("Dev");
    assert("Dev"@.len() == 3);
    reveal_strlit("Database");
    assert("Database"@.len() == 8);
    reveal_strlit("MongoDB");
    assert("MongoDB"@.len() == 7);
    reveal_strlit("Redis");
    assert("Redis"@.len() == 5);
    reveal_strlit("Cache");
    assert("Cache"@.len() == 5);
    reveal_strlit("Message Queue");
    assert("Message Queue"@.len() == 13);
    reveal_strlit("RabbitMQ");
    assert("RabbitMQ"@.len() == 8);
    reveal_strlit("Kafka");
    assert("Kafka"@.len() == 5);
    reveal_strlit("ZooKeeper");
    assert("ZooKeeper"@.len() == 9);
    reveal_strlit("Redpanda");
    assert("Redpanda"@.len() == 8);
    reveal_strlit("NATS");
    assert("NATS"@.len() == 4);
    reveal_strlit("Elasticsearch");
    assert("Elasticsearch"@.len() == 13);
    reveal_strlit("MinIO");
    assert("MinIO"@.len() == 5);
    reveal_strlit("Prometheus");
    assert("Prometheus"@.len() == 10);
    reveal_strlit("Grafana");
    assert("Grafana"@.len() == 7);
    reveal_strlit("Alertmanager");
    assert("Alertmanager"@.len() == 12);
    reveal_strlit("Loki");
    assert("Loki"@.len() == 4);
    reveal_strlit("Tempo");
    assert("Tempo"@.len() == 5);
    reveal_strlit("Nginx");
    assert("Nginx"@.len() == 5);
    reveal_strlit("Traefik");
    assert("Traefik"@.len() == 7);
    reveal_strlit("Caddy");
    assert("Caddy"@.len() == 5);
    reveal_strlit("Vault");
    assert("Vault"@.len() == 5);
    reveal_strlit("Consul");
    assert("Consul"@.len() == 6);
    reveal_strlit("Keycloak");
    assert("Keycloak"@.len() == 8);
    reveal_strlit("Solr");
    assert("Solr"@.len() == 4);
    reveal_strlit("Cassandra");
    assert("Cassandra"@.len() == 9);
    reveal_strlit("ClickHouse");
    assert("ClickHouse"@.len() == 10);
    reveal_strlit("MailHog");
    assert("MailHog"@.len() == 7);
    reveal_strlit("Mailpit");
    assert("Mailpit"@.len() == 7);
    reveal_strlit("Adminer");
    assert("Adminer"@.len() == 7);
    reveal_strlit("pgAdmin");
    assert("pgAdmin"@.len() == 7);
    reveal_strlit("phpMyAdmin");
    assert("phpMyAdmin"@.len() == 10);
    reveal_strlit("S3 (MinIO)");
    assert("S3 (MinIO)"@.len() == 10);
    reveal_strlit("Storage");
    assert("Storage"@.len() == 7);
}

/// The display name of some known Compose service.
pub open spec fn known_display(name: Seq<char>) -> bool {
    exists|key: Seq<char>| #[trigger] compose_display(key) == Some(name)
}

/// The Compose services found so far: each known, run in the root, named
/// by its display name (which is also its identifier), no name twice.
pub open spec fn compose_ok(acc: Seq<ServiceView>) -> bool {
    &&& forall|k: int| 0 <= k < acc.len() ==> (#[trigger] acc[k]).dir is None && acc[k].id == acc[k].name
        && acc[k].name != "Dev"@ && known_display(acc[k].name)
    &&& forall|i: int, j: int| 0 <= i < j < acc.len() ==> acc[i].name != acc[j].name
}

proof fn lemma_compose_scan_ok(
    lines: Seq<Seq<char>>,
    in_services: bool,
    indent: Option<nat>,
    acc: Seq<ServiceView>,
    prefix: Seq<char>,
)
    requires
        compose_ok(acc),
    ensures
        compose_ok(compose_scan(lines, in_services, indent, acc, prefix)),
    decreases lines.len(),
{
    if lines.len() > 0 {
        let line = lines[0];
        let t = trim_spec(line);
        let rest = lines.drop_first();
        if !in_services || top_level_line(line) {
            lemma_compose_scan_ok(rest, opens_services(line), None, acc, prefix);
        } else if t.len() == 0 || t[0] == '#' {
            lemma_compose_scan_ok(rest, true, indent, acc, prefix);
        } else {
            let d = lead_spaces(line);
            let ind = match indent {
                Some(k) => k,
                None => d,
            };
            if d != ind || !is_suffix(":"@, t) {
                lemma_compose_scan_ok(rest, true, Some(ind), acc, prefix);
            } else {
                let key = trim_end_char_spec(t, ':');
                match compose_display(key) {
                    Some(name) => {
                        if has_name(acc, name) {
                            lemma_compose_scan_ok(rest, true, Some(ind), acc, prefix);
                        } else {
                            lemma_display_not_dev(key);
                            let next = acc.push(fresh_service(name, prefix + " up "@ + key, None));
                            assert(known_display(name));
                            assert(compose_ok(next));
                            lemma_compose_scan_ok(rest, true, Some(ind), next, prefix);
                        }
                    },
                    None => lemma_compose_scan_ok(rest, true, Some(ind), acc, prefix),
                }
            }
        }
    }
}

/// Only known Compose services are detected: each one found is named by the
/// display name of a known service, runs in the project root under its
/// name, and no display name comes twice.
pub proof fn lemma_compose_known_only(p: DirProbe, prefix: Seq<char>)
    ensures
        compose_ok(compose_services(p, prefix)),
{
    match compose_text(p) {
        Some(c) => lemma_compose_scan_ok(lines_spec(c), false, None, seq![], prefix),
        None => {},
    }
}

/// A directory where detection finds a primary or a Compose service holds
/// a file that marks a project.
pub proof fn lemma_detection_needs_project_file(p: DirProbe, python: Seq<char>, prefix: Seq<char>)
    ensures
        primary_cmd(p, python) is Some || compose_services(p, prefix).len() > 0 ==> has_project_file(p),
{
}

/// The services auto-detection finds have distinct identifiers.
pub proof fn lemma_detected_ids_unique(project: ProjectProbe, tools: Toolchain)
    ensures
        unique_ids(detected_services(project, tools)),
{
    let root = project.root;
    let primary = match primary_cmd(root, tools.python@) {
        Some(c) => seq![fresh_service("Dev"@, c, None)],
        None => Seq::<ServiceView>::empty(),
    };
    let comp = compose_services(root, tools.compose@);
    match compose_text(root) {
        Some(c) => lemma_compose_scan_ok(lines_spec(c), false, None, seq![], tools.compose@),
        None => {},
    }
    let base = primary + comp;
    assert(unique_ids(base)) by {
        assert forall|i: int, j: int| 0 <= i < j < base.len() implies base[i].id != base[j].id by {
            if i >= primary.len() {
                assert(base[i] == comp[i - primary.len()]);
                assert(base[j] == comp[j - primary.len()]);
            } else {
                assert(base[j] == comp[j - primary.len()]);
            }
        }
    }
    let sub = subdirs_services(project.subdirs@, tools);
    lemma_merge_dedups(base, sub);
    lemma_merge_dedups(merge_spec(base, sub), tooling_services(root));
}

} // verus!

verus! {

/// The known Docker Compose services, as key and display name, in the
/// order they are looked up.
pub open spec fn compose_table() -> Seq<(Seq<char>, Seq<char>)> {
    seq![
        ("db"@, "Database"@),
        ("database"@, "Database"@),
        ("postgres"@, "Database"@),
        ("mysql"@, "Database"@),
        ("mariadb"@, "Database"@),
        ("mongodb"@, "MongoDB"@),
        ("mongo"@, "MongoDB"@),
        ("redis"@, "Redis"@),
        ("cache"@, "Cache"@),
        ("memcached"@, "Cache"@),
        ("mq"@, "Message Queue"@),
        ("rabbitmq"@, "RabbitMQ"@),
        ("kafka"@, "Kafka"@),
        ("zookeeper"@, "ZooKeeper"@),
        ("redpanda"@, "Redpanda"@),
        ("nats"@, "NATS"@),
        ("elasticsearch"@, "Elasticsearch"@),
        ("es"@, "Elasticsearch"@),
        ("minio"@, "MinIO"@),
        ("prometheus"@, "Prometheus"@),
        ("grafana"@, "Grafana"@),
        ("alertmanager"@, "Alertmanager"@),
        ("loki"@, "Loki"@),
        ("tempo"@, "Tempo"@),
        ("nginx"@, "Nginx"@),
        ("traefik"@, "Traefik"@),
        ("caddy"@, "Caddy"@),
        ("vault"@, "Vault"@),
        ("consul"@, "Consul"@),
        ("keycloak"@, "Keycloak"@),
        ("solr"@, "Solr"@),
        ("cassandra"@, "Cassandra"@),
        ("clickhouse"@, "ClickHouse"@),
        ("mailhog"@, "MailHog"@),
        ("mailpit"@, "Mailpit"@),
        ("adminer"@, "Adminer"@),
        ("pgadmin"@, "pgAdmin"@),
        ("phpmyadmin"@, "phpMyAdmin"@),
        ("s3"@, "S3 (MinIO)"@),
        ("storage"@, "Storage"@)
    ]
}

proof fn lemma_compose_key_0()
    ensures
        compose_display("db"@) == Some("Database"@),
{
    reveal_strlit("db");
    assert("db"@.len() == 2);
}

proof fn lemma_compose_key_1()
    ensures
        compose_display("database"@) == Some("Database"@),
{
    reveal_strlit("database");
    assert("database"@.len() == 8);
    reveal_strlit("db");
    assert("db"@.len() == 2);
    assert("database"@ != "db"@);
}

proof fn lemma_compose_key_2()
    ensures
        compose_display("postgres"@) == Some("Database"@),
{
    reveal_strlit("postgres");
    assert("postgres"@.len() == 8);
    reveal_strlit("db");
    assert("db"@.len() == 2);
    assert("postgres"@ != "db"@);
    reveal_strlit("database");
    assert("postgres"@[0] != "database"@[0]);
    assert("postgres"@ != "database"@);
}

proof fn lemma_compose_key_3()
    ensures
        compose_display("mysql"@) == Some("Database"@),
{
    reveal_strlit("mysql");
    assert("mysql"@.len() == 5);
    reveal_strlit("db");
    assert("db"@.len() == 2);
    assert("mysql"@ != "db"@);
    reveal_strlit("database");
    assert("database"@.len() == 8);
    assert("mysql"@ != "database"@);
    reveal_strlit("postgres");
    assert("postgres"@.len() == 8);
    assert("mysql"@ != "postgres"@);
}

proof fn lemma_compose_key_4()
    ensures
        compose_display("mariadb"@) == Some("Database"@),
{
    reveal_strlit("mariadb");
    assert("mariadb"@.len() == 7);
    reveal_strlit("db");
    assert("db"@.len() == 2);
    assert("mariadb"@ != "db"@);
    reveal_strlit("database");
    assert("database"@.len() == 8);
    assert("mariadb"@ != "database"@);
    reveal_strlit("postgres");
    assert("postgres"@.len() == 8);
    assert("mariadb"@ != "postgres"@);
    reveal_strlit("mysql");
    assert("mysql"@.len() == 5);
    assert("mariadb"@ != "mysql"@);
}

proof fn lemma_compose_key_5()
    ensures
        compose_display("mongodb"@) == Some("MongoDB"@),
{
    reveal_strlit("mongodb");
    assert("mongodb"@.len() == 7);
    reveal_strlit("db");
    assert("db"@.len() == 2);
    assert("mongodb"@ != "db"@);
    reveal_strlit("database");
    assert("database"@.len() == 8);
    assert("mongodb"@ != "database"@);
    reveal_strlit("postgres");
    assert("postgres"@.len() == 8);
    assert("mongodb"@ != "postgres"@);
    reveal_strlit("mysql");
    assert("mysql"@.len() == 5);
    assert("mongodb"@ != "mysql"@);
    reveal_strlit("mariadb");
    assert("mongodb"@[1] != "mariadb"@[1]);
    assert("mongodb"@ != "mariadb"@);
}

proof fn lemma_compose_key_6()
    ensures
        compose_display("mongo"@) == Some("MongoDB"@),
{
    reveal_strlit("mongo");
    assert("mongo"@.len() == 5);
    reveal_strlit("db");
    assert("db"@.len() == 2);
    assert("mongo"@ != "db"@);
    reveal_strlit("database");
    assert("database"@.len() == 8);
    assert("mongo"@ != "database"@);
    reveal_strlit("postgres");
    assert("postgres"@.len() == 8);
    assert("mongo"@ != "postgres"@);
    reveal_strlit("mysql");
    assert("mongo"@[1] != "mysql"@[1]);
    assert("mongo"@ != "mysql"@);
    reveal_strlit("mariadb");
    assert("mariadb"@.len() == 7);
    assert("mongo"@ != "mariadb"@);
    reveal_strlit("mongodb");
    assert("mongodb"@.len() == 7);
    assert("mongo"@ != "mongodb"@);
}

proof fn lemma_compose_key_7()
    ensures
        compose_display("redis"@) == Some("Redis"@),
{
    reveal_strlit("redis");
    assert("redis"@.len() == 5);
    reveal_strlit("db");
    assert("db"@.len() == 2);
    assert("redis"@ != "db"@);
    reveal_strlit("database");
    assert("database"@.len() == 8);
    assert("redis"@ != "database"@);
    reveal_strlit("postgres");
    assert("postgres"@.len() == 8);
    assert("redis"@ != "postgres"@);
    reveal_strlit("mysql");
    assert("redis"@[0] != "mysql"@[0]);
    assert("redis"@ != "mysql"@);
    reveal_strlit("mariadb");
    assert("mariadb"@.len() == 7);
    assert("redis"@ != "mariadb"@);
    reveal_strlit("mongodb");
    assert("mongodb"@.len() == 7);
    assert("redis"@ != "mongodb"@);
    reveal_strlit("mongo");
    assert("redis"@[0] != "mongo"@[0]);
    assert("redis"@ != "mongo"@);
}

proof fn lemma_compose_key_8()
    ensures
        compose_display("cache"@) == Some("Cache"@),
{
    reveal_strlit("cache");
    assert("cache"@.len() == 5);
    reveal_strlit("db");
    assert("db"@.len() == 2);
    assert("cache"@ != "db"@);
    reveal_strlit("database");
    assert("database"@.len() == 8);
    assert("cache"@ != "database"@);
    reveal_strlit("postgres");
    assert("postgres"@.len() == 8);
    assert("cache"@ != "postgres"@);
    reveal_strlit("mysql");
    assert("cache"@[0] != "mysql"@[0]);
    assert("cache"@ != "mysql"@);
    reveal_strlit("mariadb");
    assert("mariadb"@.len() == 7);
    assert("cache"@ != "mariadb"@);
    reveal_strlit("mongodb");
    assert("mongodb"@.len() == 7);
    assert("cache"@ != "mongodb"@);
    reveal_strlit("mongo");
    assert("cache"@[0] != "mongo"@[0]);
    assert("cache"@ != "mongo"@);
    reveal_strlit("redis");
    assert("cache"@[0] != "redis"@[0]);
    assert("cache"@ != "redis"@);
}

proof fn lemma_compose_key_9()
    ensures
        compose_display("memcached"@) == Some("Cache"@),
{
    reveal_strlit("memcached");
    assert("memcached"@.len() == 9);
    reveal_strlit("db");
    assert("db"@.len() == 2);
    assert("memcached"@ != "db"@);
    reveal_strlit("database");
    assert("database"@.len() == 8);
    assert("memcached"@ != "database"@);
    reveal_strlit("postgres");
    assert("postgres"@.len() == 8);
    assert("memcached"@ != "postgres"@);
    reveal_strlit("mysql");
    assert("mysql"@.len() == 5);
    assert("memcached"@ != "mysql"@);
    reveal_strlit("mariadb");
    assert("mariadb"@.len() == 7);
    assert("memcached"@ != "mariadb"@);
    reveal_strlit("mongodb");
    assert("mongodb"@.len() == 7);
    assert("memcached"@ != "mongodb"@);
    reveal_strlit("mongo");
    assert("mongo"@.len() == 5);
    assert("memcached"@ != "mongo"@);
    reveal_strlit("redis");
    assert("redis"@.len() == 5);
    assert("memcached"@ != "redis"@);
    reveal_strlit("cache");
    assert("cache"@.len() == 5);
    assert("memcached"@ != "cache"@);
}

proof fn lemma_compose_key_10()
    ensures
        compose_display("mq"@) == Some("Message Queue"@),
{
    reveal_strlit("mq");
    assert("mq"@.len() == 2);
    reveal_strlit("db");
    assert("mq"@[0] != "db"@[0]);
    assert("mq"@ != "db"@);
    reveal_strlit("database");
    assert("database"@.len() == 8);
    assert("mq"@ != "database"@);
    reveal_strlit("postgres");
    assert("postgres"@.len() == 8);
    assert("mq"@ != "postgres"@);
    reveal_strlit("mysql");
    assert("mysql"@.len() == 5);
    assert("mq"@ != "mysql"@);
    reveal_strlit("mariadb");
    assert("mariadb"@.len() == 7);
    assert("mq"@ != "mariadb"@);
    reveal_strlit("mongodb");
    assert("mongodb"@.len() == 7);
    assert("mq"@ != "mongodb"@);
    reveal_strlit("mongo");
    assert("mongo"@.len() == 5);
    assert("mq"@ != "mongo"@);
    reveal_strlit("redis");
    assert("redis"@.len() == 5);
    assert("mq"@ != "redis"@);
    reveal_strlit("cache");
    assert("cache"@.len() == 5);
    assert("mq"@ != "cache"@);
    reveal_strlit("memcached");
    assert("memcached"@.len() == 9);
    assert("mq"@ != "memcached"@);
}

proof fn lemma_compose_key_11()
    ensures
        compose_display("rabbitmq"@) == Some("RabbitMQ"@),
{
    reveal_strlit("rabbitmq");
    assert("rabbitmq"@.len() == 8);
    reveal_strlit("db");
    assert("db"@.len() == 2);
    assert("rabbitmq"@ != "db"@);
    reveal_strlit("database");
    assert("rabbitmq"@[0] != "database"@[0]);
    assert("rabbitmq"@ != "database"@);
    reveal_strlit("postgres");
    assert("rabbitmq"@[0] != "postgres"@[0]);
    assert("rabbitmq"@ != "postgres"@);
    reveal_strlit("mysql");
    assert("mysql"@.len() == 5);
    assert("rabbitmq"@ != "mysql"@);
    reveal_strlit("mariadb");
    assert("mariadb"@.len() == 7);
    assert("rabbitmq"@ != "mariadb"@);
    reveal_strlit("mongodb");
    assert("mongodb"@.len() == 7);
    assert("rabbitmq"@ != "mongodb"@);
    reveal_strlit("mongo");
    assert("mongo"@.len() == 5);
    assert("rabbitmq"@ != "mongo"@);
    reveal_strlit("redis");
    assert("redis"@.len() == 5);
    assert("rabbitmq"@ != "redis"@);
    reveal_strlit("cache");
    assert("cache"@.len() == 5);
    assert("rabbitmq"@ != "cache"@);
    reveal_strlit("memcached");
    assert("memcached"@.len() == 9);
    assert("rabbitmq"@ != "memcached"@);
    reveal_strlit("mq");
    assert("mq"@.len() == 2);
    assert("rabbitmq"@ != "mq"@);
}

proof fn lemma_compose_key_12()
    ensures
        compose_display("kafka"@) == Some("Kafka"@),
{
    reveal_strlit("kafka");
    assert("kafka"@.len() == 5);
    reveal_strlit("db");
    assert("db"@.len() == 2);
    assert("kafka"@ != "db"@);
    reveal_strlit("database");
    assert("database"@.len() == 8);
    assert("kafka"@ != "database"@);
    reveal_strlit("postgres");
    assert("postgres"@.len() == 8);
    assert("kafka"@ != "postgres"@);
    reveal_strlit("mysql");
    assert("kafka"@[0] != "mysql"@[0]);
    assert("kafka"@ != "mysql"@);
    reveal_strlit("mariadb");
    assert("mariadb"@.len() == 7);
    assert("kafka"@ != "mariadb"@);
    reveal_strlit("mongodb");
    assert("mongodb"@.len() == 7);
    assert("kafka"@ != "mongodb"@);
    reveal_strlit("mongo");
    assert("kafka"@[0] != "mongo"@[0]);
    assert("kafka"@ != "mongo"@);
    reveal_strlit("redis");
    assert("kafka"@[0] != "redis"@[0]);
    assert("kafka"@ != "redis"@);
    reveal_strlit("cache");
    assert("kafka"@[0] != "cache"@[0]);
    assert("kafka"@ != "cache"@);
    reveal_strlit("memcached");
    assert("memcached"@.len() == 9);
    assert("kafka"@ != "memcached"@);
    reveal_strlit("mq");
    assert("mq"@.len() == 2);
    assert("kafka"@ != "mq"@);
    reveal_strlit("rabbitmq");
    assert("rabbitmq"@.len() == 8);
    assert("kafka"@ != "rabbitmq"@);
}

proof fn lemma_compose_key_13()
    ensures
        compose_display("zookeeper"@) == Some("ZooKeeper"@),
{
    reveal_strlit("zookeeper");
    assert("zookeeper"@.len() == 9);
    reveal_strlit("db");
    assert("db"@.len() == 2);
    assert("zookeeper"@ != "db"@);
    reveal_strlit("database");
    assert("database"@.len() == 8);
    assert("zookeeper"@ != "database"@);
    reveal_strlit("postgres");
    assert("postgres"@.len() == 8);
    assert("zookeeper"@ != "postgres"@);
    reveal_strlit("mysql");
    assert("mysql"@.len() == 5);
    assert("zookeeper"@ != "mysql"@);
    reveal_strlit("mariadb");
    assert("mariadb"@.len() == 7);
    assert("zookeeper"@ != "mariadb"@);
    reveal_strlit("mongodb");
    assert("mongodb"@.len() == 7);
    assert("zookeeper"@ != "mongodb"@);
    reveal_strlit("mongo");
    assert("mongo"@.len() == 5);
    assert("zookeeper"@ != "mongo"@);
    reveal_strlit("redis");
    assert("redis"@.len() == 5);
    assert("zookeeper"@ != "redis"@);
    reveal_strlit("cache");
    assert("cache"@.len() == 5);
    assert("zookeeper"@ != "cache"@);
    reveal_strlit("memcached");
    assert("zookeeper"@[0] != "memcached"@[0]);
    assert("zookeeper"@ != "memcached"@);
    reveal_strlit("mq");
    assert("mq"@.len() == 2);
    assert("zookeeper"@ != "mq"@);
    reveal_strlit("rabbitmq");
    assert("rabbitmq"@.len() == 8);
    assert("zookeeper"@ != "rabbitmq"@);
    reveal_strlit("kafka");
    assert("kafka"@.len() == 5);
    assert("zookeeper"@ != "kafka"@);
}

proof fn lemma_compose_key_14()
    ensures
        compose_display("redpanda"@) == Some("Redpanda"@),
{
    reveal_strlit("redpanda");
    assert("redpanda"@.len() == 8);
    reveal_strlit("db");
    assert("db"@.len() == 2);
    assert("redpanda"@ != "db"@);
    reveal_strlit("database");
    assert("redpanda"@[0] != "database"@[0]);
    assert("redpanda"@ != "database"@);
    reveal_strlit("postgres");
    assert("redpanda"@[0] != "postgres"@[0]);
    assert("redpanda"@ != "postgres"@);
    reveal_strlit("mysql");
    assert("mysql"@.len() == 5);
    assert("redpanda"@ != "mysql"@);
    reveal_strlit("mariadb");
    assert("mariadb"@.len() == 7);
    assert("redpanda"@ != "mariadb"@);
    reveal_strlit("mongodb");
    assert("mongodb"@.len() == 7);
    assert("redpanda"@ != "mongodb"@);
    reveal_strlit("mongo");
    assert("mongo"@.len() == 5);
    assert("redpanda"@ != "mongo"@);
    reveal_strlit("redis");
    assert("redis"@.len() == 5);
    assert("redpanda"@ != "redis"@);
    reveal_strlit("cache");
    assert("cache"@.len() == 5);
    assert("redpanda"@ != "cache"@);
    reveal_strlit("memcached");
    assert("memcached"@.len() == 9);
    assert("redpanda"@ != "memcached"@);
    reveal_strlit("mq");
    assert("mq"@.len() == 2);
    assert("redpanda"@ != "mq"@);
    reveal_strlit("rabbitmq");
    assert("redpanda"@[1] != "rabbitmq"@[1]);
    assert("redpanda"@ != "rabbitmq"@);
    reveal_strlit("kafka");
    assert("kafka"@.len() == 5);
    assert("redpanda"@ != "kafka"@);
    reveal_strlit("zookeeper");
    assert("zookeeper"@.len() == 9);
    assert("redpanda"@ != "zookeeper"@);
}

proof fn lemma_compose_key_15()
    ensures
        compose_display("nats"@) == Some("NATS"@),
{
    reveal_strlit("nats");
    assert("nats"@.len() == 4);
    reveal_strlit("db");
    assert("db"@.len() == 2);
    assert("nats"@ != "db"@);
    reveal_strlit("database");
    assert("database"@.len() == 8);
    assert("nats"@ != "database"@);
    reveal_strlit("postgres");
    assert("postgres"@.len() == 8);
    assert("nats"@ != "postgres"@);
    reveal_strlit("mysql");
    assert("mysql"@.len() == 5);
    assert("nats"@ != "mysql"@);
    reveal_strlit("mariadb");
    assert("mariadb"@.len() == 7);
    assert("nats"@ != "mariadb"@);
    reveal_strlit("mongodb");
    assert("mongodb"@.len() == 7);
    assert("nats"@ != "mongodb"@);
    reveal_strlit("mongo");
    assert("mongo"@.len() == 5);
    assert("nats"@ != "mongo"@);
    reveal_strlit("redis");
    assert("redis"@.len() == 5);
    assert("nats"@ != "redis"@);
    reveal_strlit("cache");
    assert("cache"@.len() == 5);
    assert("nats"@ != "cache"@);
    reveal_strlit("memcached");
    assert("memcached"@.len() == 9);
    assert("nats"@ != "memcached"@);
    reveal_strlit("mq");
    assert("mq"@.len() == 2);
    assert("nats"@ != "mq"@);
    reveal_strlit("rabbitmq");
    assert("rabbitmq"@.len() == 8);
    assert("nats"@ != "rabbitmq"@);
    reveal_strlit("kafka");
    assert("kafka"@.len() == 5);
    assert("nats"@ != "kafka"@);
    reveal_strlit("zookeeper");
    assert("zookeeper"@.len() == 9);
    assert("nats"@ != "zookeeper"@);
    reveal_strlit("redpanda");
    assert("redpanda"@.len() == 8);
    assert("nats"@ != "redpanda"@);
}

proof fn lemma_compose_key_16()
    ensures
        compose_display("elasticsearch"@) == Some("Elasticsearch"@),
{
    reveal_strlit("elasticsearch");
    assert("elasticsearch"@.len() == 13);
    reveal_strlit("db");
    assert("db"@.len() == 2);
    assert("elasticsearch"@ != "db"@);
    reveal_strlit("database");
    assert("database"@.len() == 8);
    assert("elasticsearch"@ != "database"@);
    reveal_strlit("postgres");
    assert("postgres"@.len() == 8);
    assert("elasticsearch"@ != "postgres"@);
    reveal_strlit("mysql");
    assert("mysql"@.len() == 5);
    assert("elasticsearch"@ != "mysql"@);
    reveal_strlit("mariadb");
    assert("mariadb"@.len() == 7);
    assert("elasticsearch"@ != "mariadb"@);
    reveal_strlit("mongodb");
    assert("mongodb"@.len() == 7);
    assert("elasticsearch"@ != "mongodb"@);
    reveal_strlit("mongo");
    assert("mongo"@.len() == 5);
    assert("elasticsearch"@ != "mongo"@);
    reveal_strlit("redis");
    assert("redis"@.len() == 5);
    assert("elasticsearch"@ != "redis"@);
    reveal_strlit("cache");
    assert("cache"@.len() == 5);
    assert("elasticsearch"@ != "cache"@);
    reveal_strlit("memcached");
    assert("memcached"@.len() == 9);
    assert("elasticsearch"@ != "memcached"@);
    reveal_strlit("mq");
    assert("mq"@.len() == 2);
    assert("elasticsearch"@ != "mq"@);
    reveal_strlit("rabbitmq");
    assert("rabbitmq"@.len() == 8);
    assert("elasticsearch"@ != "rabbitmq"@);
    reveal_strlit("kafka");
    assert("kafka"@.len() == 5);
    assert("elasticsearch"@ != "kafka"@);
    reveal_strlit("zookeeper");
    assert("zookeeper"@.len() == 9);
    assert("elasticsearch"@ != "zookeeper"@);
    reveal_strlit("redpanda");
    assert("redpanda"@.len() == 8);
    assert("elasticsearch"@ != "redpanda"@);
    reveal_strlit("nats");
    assert("nats"@.len() == 4);
    assert("elasticsearch"@ != "nats"@);
}

proof fn lemma_compose_key_17()
    ensures
        compose_display("es"@) == Some("Elasticsearch"@),
{
    reveal_strlit("es");
    assert("es"@.len() == 2);
    reveal_strlit("db");
    assert("es"@[0] != "db"@[0]);
    assert("es"@ != "db"@);
    reveal_strlit("database");
    assert("database"@.len() == 8);
    assert("es"@ != "database"@);
    reveal_strlit("postgres");
    assert("postgres"@.len() == 8);
    assert("es"@ != "postgres"@);
    reveal_strlit("mysql");
    assert("mysql"@.len() == 5);
    assert("es"@ != "mysql"@);
    reveal_strlit("mariadb");
    assert("mariadb"@.len() == 7);
    assert("es"@ != "mariadb"@);
    reveal_strlit("mongodb");
    assert("mongodb"@.len() == 7);
    assert("es"@ != "mongodb"@);
    reveal_strlit("mongo");
    assert("mongo"@.len() == 5);
    assert("es"@ != "mongo"@);
    reveal_strlit("redis");
    assert("redis"@.len() == 5);
    assert("es"@ != "redis"@);
    reveal_strlit("cache");
    assert("cache"@.len() == 5);
    assert("es"@ != "cache"@);
    reveal_strlit("memcached");
    assert("memcached"@.len() == 9);
    assert("es"@ != "memcached"@);
    reveal_strlit("mq");
    assert("es"@[0] != "mq"@[0]);
    assert("es"@ != "mq"@);
    reveal_strlit("rabbitmq");
    assert("rabbitmq"@.len() == 8);
    assert("es"@ != "rabbitmq"@);
    reveal_strlit("kafka");
    assert("kafka"@.len() == 5);
    assert("es"@ != "kafka"@);
    reveal_strlit("zookeeper");
    assert("zookeeper"@.len() == 9);
    assert("es"@ != "zookeeper"@);
    reveal_strlit("redpanda");
    assert("redpanda"@.len() == 8);
    assert("es"@ != "redpanda"@);
    reveal_strlit("nats");
    assert("nats"@.len() == 4);
    assert("es"@ != "nats"@);
    reveal_strlit("elasticsearch");
    assert("elasticsearch"@.len() == 13);
    assert("es"@ != "elasticsearch"@);
}

proof fn lemma_compose_key_18()
    ensures
        compose_display("minio"@) == Some("MinIO"@),
{
    reveal_strlit("minio");
    assert("minio"@.len() == 5);
    reveal_strlit("db");
    assert("db"@.len() == 2);
    assert("minio"@ != "db"@);
    reveal_strlit("database");
    assert("database"@.len() == 8);
    assert("minio"@ != "database"@);
    reveal_strlit("postgres");
    assert("postgres"@.len() == 8);
    assert("minio"@ != "postgres"@);
    reveal_strlit("mysql");
    assert("minio"@[1] != "mysql"@[1]);
    assert("minio"@ != "mysql"@);
    reveal_strlit("mariadb");
    assert("mariadb"@.len() == 7);
    assert("minio"@ != "mariadb"@);
    reveal_strlit("mongodb");
    assert("mongodb"@.len() == 7);
    assert("minio"@ != "mongodb"@);
    reveal_strlit("mongo");
    assert("minio"@[1] != "mongo"@[1]);
    assert("minio"@ != "mongo"@);
    reveal_strlit("redis");
    assert("minio"@[0] != "redis"@[0]);
    assert("minio"@ != "redis"@);
    reveal_strlit("cache");
    assert("minio"@[0] != "cache"@[0]);
    assert("minio"@ != "cache"@);
    reveal_strlit("memcached");
    assert("memcached"@.len() == 9);
    assert("minio"@ != "memcached"@);
    reveal_strlit("mq");
    assert("mq"@.len() == 2);
    assert("minio"@ != "mq"@);
    reveal_strlit("rabbitmq");
    assert("rabbitmq"@.len() == 8);
    assert("minio"@ != "rabbitmq"@);
    reveal_strlit("kafka");
    assert("minio"@[0] != "kafka"@[0]);
    assert("minio"@ != "kafka"@);
    reveal_strlit("zookeeper");
    assert("zookeeper"@.len() == 9);
    assert("minio"@ != "zookeeper"@);
    reveal_strlit("redpanda");
    assert("redpanda"@.len() == 8);
    assert("minio"@ != "redpanda"@);
    reveal_strlit("nats");
    assert("nats"@.len() == 4);
    assert("minio"@ != "nats"@);
    reveal_strlit("elasticsearch");
    assert("elasticsearch"@.len() == 13);
    assert("minio"@ != "elasticsearch"@);
    reveal_strlit("es");
    assert("es"@.len() == 2);
    assert("minio"@ != "es"@);
}

proof fn lemma_compose_key_19()
    ensures
        compose_display("prometheus"@) == Some("Prometheus"@),
{
    reveal_strlit("prometheus");
    assert("prometheus"@.len() == 10);
    reveal_strlit("db");
    assert("db"@.len() == 2);
    assert("prometheus"@ != "db"@);
    reveal_strlit("database");
    assert("database"@.len() == 8);
    assert("prometheus"@ != "database"@);
    reveal_strlit("postgres");
    assert("postgres"@.len() == 8);
    assert("prometheus"@ != "postgres"@);
    reveal_strlit("mysql");
    assert("mysql"@.len() == 5);
    assert("prometheus"@ != "mysql"@);
    reveal_strlit("mariadb");
    assert("mariadb"@.len() == 7);
    assert("prometheus"@ != "mariadb"@);
    reveal_strlit("mongodb");
    assert("mongodb"@.len() == 7);
    assert("prometheus"@ != "mongodb"@);
    reveal_strlit("mongo");
    assert("mongo"@.len() == 5);
    assert("prometheus"@ != "mongo"@);
    reveal_strlit("redis");
    assert("redis"@.len() == 5);
    assert("prometheus"@ != "redis"@);
    reveal_strlit("cache");
    assert("cache"@.len() == 5);
    assert("prometheus"@ != "cache"@);
    reveal_strlit("memcached");
    assert("memcached"@.len() == 9);
    assert("prometheus"@ != "memcached"@);
    reveal_strlit("mq");
    assert("mq"@.len() == 2);
    assert("prometheus"@ != "mq"@);
    reveal_strlit("rabbitmq");
    assert("rabbitmq"@.len() == 8);
    assert("prometheus"@ != "rabbitmq"@);
    reveal_strlit("kafka");
    assert("kafka"@.len() == 5);
    assert("prometheus"@ != "kafka"@);
    reveal_strlit("zookeeper");
    assert("zookeeper"@.len() == 9);
    assert("prometheus"@ != "zookeeper"@);
    reveal_strlit("redpanda");
    assert("redpanda"@.len() == 8);
    assert("prometheus"@ != "redpanda"@);
    reveal_strlit("nats");
    assert("nats"@.len() == 4);
    assert("prometheus"@ != "nats"@);
    reveal_strlit("elasticsearch");
    assert("elasticsearch"@.len() == 13);
    assert("prometheus"@ != "elasticsearch"@);
    reveal_strlit("es");
    assert("es"@.len() == 2);
    assert("prometheus"@ != "es"@);
    reveal_strlit("minio");
    assert("minio"@.len() == 5);
    assert("prometheus"@ != "minio"@);
}

proof fn lemma_compose_key_20()
    ensures
        compose_display("grafana"@) == Some("Grafana"@),
{
    reveal_strlit("grafana");
    assert("grafana"@.len() == 7);
    reveal_strlit("db");
    assert("db"@.len() == 2);
    assert("grafana"@ != "db"@);
    reveal_strlit("database");
    assert("database"@.len() == 8);
    assert("grafana"@ != "database"@);
    reveal_strlit("postgres");
    assert("postgres"@.len() == 8);
    assert("grafana"@ != "postgres"@);
    reveal_strlit("mysql");
    assert("mysql"@.len() == 5);
    assert("grafana"@ != "mysql"@);
    reveal_strlit("mariadb");
    assert("grafana"@[0] != "mariadb"@[0]);
    assert("grafana"@ != "mariadb"@);
    reveal_strlit("mongodb");
    assert("grafana"@[0] != "mongodb"@[0]);
    assert("grafana"@ != "mongodb"@);
    reveal_strlit("mongo");
    assert("mongo"@.len() == 5);
    assert("grafana"@ != "mongo"@);
    reveal_strlit("redis");
    assert("redis"@.len() == 5);
    assert("grafana"@ != "redis"@);
    reveal_strlit("cache");
    assert("cache"@.len() == 5);
    assert("grafana"@ != "cache"@);
    reveal_strlit("memcached");
    assert("memcached"@.len() == 9);
    assert("grafana"@ != "memcached"@);
    reveal_strlit("mq");
    assert("mq"@.len() == 2);
    assert("grafana"@ != "mq"@);
    reveal_strlit("rabbitmq");
    assert("rabbitmq"@.len() == 8);
    assert("grafana"@ != "rabbitmq"@);
    reveal_strlit("kafka");
    assert("kafka"@.len() == 5);
    assert("grafana"@ != "kafka"@);
    reveal_strlit("zookeeper");
    assert("zookeeper"@.len() == 9);
    assert("grafana"@ != "zookeeper"@);
    reveal_strlit("redpanda");
    assert("redpanda"@.len() == 8);
    assert("grafana"@ != "redpanda"@);
    reveal_strlit("nats");
    assert("nats"@.len() == 4);
    assert("grafana"@ != "nats"@);
    reveal_strlit("elasticsearch");
    assert("elasticsearch"@.len() == 13);
    assert("grafana"@ != "elasticsearch"@);
    reveal_strlit("es");
    assert("es"@.len() == 2);
    assert("grafana"@ != "es"@);
    reveal_strlit("minio");
    assert("minio"@.len() == 5);
    assert("grafana"@ != "minio"@);
    reveal_strlit("prometheus");
    assert("prometheus"@.len() == 10);
    assert("grafana"@ != "prometheus"@);
}

proof fn lemma_compose_key_21()
    ensures
        compose_display("alertmanager"@) == Some("Alertmanager"@),
{
    reveal_strlit("alertmanager");
    assert("alertmanager"@.len() == 12);
    reveal_strlit("db");
    assert("db"@.len() == 2);
    assert("alertmanager"@ != "db"@);
    reveal_strlit("database");
    assert("database"@.len() == 8);
    assert("alertmanager"@ != "database"@);
    reveal_strlit("postgres");
    assert("postgres"@.len() == 8);
    assert("alertmanager"@ != "postgres"@);
    reveal_strlit("mysql");
    assert("mysql"@.len() == 5);
    assert("alertmanager"@ != "mysql"@);
    reveal_strlit("mariadb");
    assert("mariadb"@.len() == 7);
    assert("alertmanager"@ != "mariadb"@);
    reveal_strlit("mongodb");
    assert("mongodb"@.len() == 7);
    assert("alertmanager"@ != "mongodb"@);
    reveal_strlit("mongo");
    assert("mongo"@.len() == 5);
    assert("alertmanager"@ != "mongo"@);
    reveal_strlit("redis");
    assert("redis"@.len() == 5);
    assert("alertmanager"@ != "redis"@);
    reveal_strlit("cache");
    assert("cache"@.len() == 5);
    assert("alertmanager"@ != "cache"@);
    reveal_strlit("memcached");
    assert("memcached"@.len() == 9);
    assert("alertmanager"@ != "memcached"@);
    reveal_strlit("mq");
    assert("mq"@.len() == 2);
    assert("alertmanager"@ != "mq"@);
    reveal_strlit("rabbitmq");
    assert("rabbitmq"@.len() == 8);
    assert("alertmanager"@ != "rabbitmq"@);
    reveal_strlit("kafka");
    assert("kafka"@.len() == 5);
    assert("alertmanager"@ != "kafka"@);
    reveal_strlit("zookeeper");
    assert("zookeeper"@.len() == 9);
    assert("alertmanager"@ != "zookeeper"@);
    reveal_strlit("redpanda");
    assert("redpanda"@.len() == 8);
    assert("alertmanager"@ != "redpanda"@);
    reveal_strlit("nats");
    assert("nats"@.len() == 4);
    assert("alertmanager"@ != "nats"@);
    reveal_strlit("elasticsearch");
    assert("elasticsearch"@.len() == 13);
    assert("alertmanager"@ != "elasticsearch"@);
    reveal_strlit("es");
    assert("es"@.len() == 2);
    assert("alertmanager"@ != "es"@);
    reveal_strlit("minio");
    assert("minio"@.len() == 5);
    assert("alertmanager"@ != "minio"@);
    reveal_strlit("prometheus");
    assert("prometheus"@.len() == 10);
    assert("alertmanager"@ != "prometheus"@);
    reveal_strlit("grafana");
    assert("grafana"@.len() == 7);
    assert("alertmanager"@ != "grafana"@);
}

proof fn lemma_compose_key_22()
    ensures
        compose_display("loki"@) == Some("Loki"@),
{
    reveal_strlit("loki");
    assert("loki"@.len() == 4);
    reveal_strlit("db");
    assert("db"@.len() == 2);
    assert("loki"@ != "db"@);
    reveal_strlit("database");
    assert("database"@.len() == 8);
    assert("loki"@ != "database"@);
    reveal_strlit("postgres");
    assert("postgres"@.len() == 8);
    assert("loki"@ != "postgres"@);
    reveal_strlit("mysql");
    assert("mysql"@.len() == 5);
    assert("loki"@ != "mysql"@);
    reveal_strlit("mariadb");
    assert("mariadb"@.len() == 7);
    assert("loki"@ != "mariadb"@);
    reveal_strlit("mongodb");
    assert("mongodb"@.len() == 7);
    assert("loki"@ != "mongodb"@);
    reveal_strlit("mongo");
    assert("mongo"@.len() == 5);
    assert("loki"@ != "mongo"@);
    reveal_strlit("redis");
    assert("redis"@.len() == 5);
    assert("loki"@ != "redis"@);
    reveal_strlit("cache");
    assert("cache"@.len() == 5);
    assert("loki"@ != "cache"@);
    reveal_strlit("memcached");
    assert("memcached"@.len() == 9);
    assert("loki"@ != "memcached"@);
    reveal_strlit("mq");
    assert("mq"@.len() == 2);
    assert("loki"@ != "mq"@);
    reveal_strlit("rabbitmq");
    assert("rabbitmq"@.len() == 8);
    assert("loki"@ != "rabbitmq"@);
    reveal_strlit("kafka");
    assert("kafka"@.len() == 5);
    assert("loki"@ != "kafka"@);
    reveal_strlit("zookeeper");
    assert("zookeeper"@.len() == 9);
    assert("loki"@ != "zookeeper"@);
    reveal_strlit("redpanda");
    assert("redpanda"@.len() == 8);
    assert("loki"@ != "redpanda"@);
    reveal_strlit("nats");
    assert("loki"@[0] != "nats"@[0]);
    assert("loki"@ != "nats"@);
    reveal_strlit("elasticsearch");
    assert("elasticsearch"@.len() == 13);
    assert("loki"@ != "elasticsearch"@);
    reveal_strlit("es");
    assert("es"@.len() == 2);
    assert("loki"@ != "es"@);
    reveal_strlit("minio");
    assert("minio"@.len() == 5);
    assert("loki"@ != "minio"@);
    reveal_strlit("prometheus");
    assert("prometheus"@.len() == 10);
    assert("loki"@ != "prometheus"@);
    reveal_strlit("grafana");
    assert("grafana"@.len() == 7);
    assert("loki"@ != "grafana"@);
    reveal_strlit("alertmanager");
    assert("alertmanager"@.len() == 12);
    assert("loki"@ != "alertmanager"@);
}

proof fn lemma_compose_key_23()
    ensures
        compose_display("tempo"@) == Some("Tempo"@),
{
    reveal_strlit("tempo");
    assert("tempo"@.len() == 5);
    reveal_strlit("db");
    assert("db"@.len() == 2);
    assert("tempo"@ != "db"@);
    reveal_strlit("database");
    assert("database"@.len() == 8);
    assert("tempo"@ != "database"@);
    reveal_strlit("postgres");
    assert("postgres"@.len() == 8);
    assert("tempo"@ != "postgres"@);
    reveal_strlit("mysql");
    assert("tempo"@[0] != "mysql"@[0]);
    assert("tempo"@ != "mysql"@);
    reveal_strlit("mariadb");
    assert("mariadb"@.len() == 7);
    assert("tempo"@ != "mariadb"@);
    reveal_strlit("mongodb");
    assert("mongodb"@.len() == 7);
    assert("tempo"@ != "mongodb"@);
    reveal_strlit("mongo");
    assert("tempo"@[0] != "mongo"@[0]);
    assert("tempo"@ != "mongo"@);
    reveal_strlit("redis");
    assert("tempo"@[0] != "redis"@[0]);
    assert("tempo"@ != "redis"@);
    reveal_strlit("cache");
    assert("tempo"@[0] != "cache"@[0]);
    assert("tempo"@ != "cache"@);
    reveal_strlit("memcached");
    assert("memcached"@.len() == 9);
    assert("tempo"@ != "memcached"@);
    reveal_strlit("mq");
    assert("mq"@.len() == 2);
    assert("tempo"@ != "mq"@);
    reveal_strlit("rabbitmq");
    assert("rabbitmq"@.len() == 8);
    assert("tempo"@ != "rabbitmq"@);
    reveal_strlit("kafka");
    assert("tempo"@[0] != "kafka"@[0]);
    assert("tempo"@ != "kafka"@);
    reveal_strlit("zookeeper");
    assert("zookeeper"@.len() == 9);
    assert("tempo"@ != "zookeeper"@);
    reveal_strlit("redpanda");
    assert("redpanda"@.len() == 8);
    assert("tempo"@ != "redpanda"@);
    reveal_strlit("nats");
    assert("nats"@.len() == 4);
    assert("tempo"@ != "nats"@);
    reveal_strlit("elasticsearch");
    assert("elasticsearch"@.len() == 13);
    assert("tempo"@ != "elasticsearch"@);
    reveal_strlit("es");
    assert("es"@.len() == 2);
    assert("tempo"@ != "es"@);
    reveal_strlit("minio");
    assert("tempo"@[0] != "minio"@[0]);
    assert("tempo"@ != "minio"@);
    reveal_strlit("prometheus");
    assert("prometheus"@.len() == 10);
    assert("tempo"@ != "prometheus"@);
    reveal_strlit("grafana");
    assert("grafana"@.len() == 7);
    assert("tempo"@ != "grafana"@);
    reveal_strlit("alertmanager");
    assert("alertmanager"@.len() == 12);
    assert("tempo"@ != "alertmanager"@);
    reveal_strlit("loki");
    assert("loki"@.len() == 4);
    assert("tempo"@ != "loki"@);
}

proof fn lemma_compose_key_24()
    ensures
        compose_display("nginx"@) == Some("Nginx"@),
{
    reveal_strlit("nginx");
    assert("nginx"@.len() == 5);
    reveal_strlit("db");
    assert("db"@.len() == 2);
    assert("nginx"@ != "db"@);
    reveal_strlit("database");
    assert("database"@.len() == 8);
    assert("nginx"@ != "database"@);
    reveal_strlit("postgres");
    assert("postgres"@.len() == 8);
    assert("nginx"@ != "postgres"@);
    reveal_strlit("mysql");
    assert("nginx"@[0] != "mysql"@[0]);
    assert("nginx"@ != "mysql"@);
    reveal_strlit("mariadb");
    assert("mariadb"@.len() == 7);
    assert("nginx"@ != "mariadb"@);
    reveal_strlit("mongodb");
    assert("mongodb"@.len() == 7);
    assert("nginx"@ != "mongodb"@);
    reveal_strlit("mongo");
    assert("nginx"@[0] != "mongo"@[0]);
    assert("nginx"@ != "mongo"@);
    reveal_strlit("redis");
    assert("nginx"@[0] != "redis"@[0]);
    assert("nginx"@ != "redis"@);
    reveal_strlit("cache");
    assert("nginx"@[0] != "cache"@[0]);
    assert("nginx"@ != "cache"@);
    reveal_strlit("memcached");
    assert("memcached"@.len() == 9);
    assert("nginx"@ != "memcached"@);
    reveal_strlit("mq");
    assert("mq"@.len() == 2);
    assert("nginx"@ != "mq"@);
    reveal_strlit("rabbitmq");
    assert("rabbitmq"@.len() == 8);
    assert("nginx"@ != "rabbitmq"@);
    reveal_strlit("kafka");
    assert("nginx"@[0] != "kafka"@[0]);
    assert("nginx"@ != "kafka"@);
    reveal_strlit("zookeeper");
    assert("zookeeper"@.len() == 9);
    assert("nginx"@ != "zookeeper"@);
    reveal_strlit("redpanda");
    assert("redpanda"@.len() == 8);
    assert("nginx"@ != "redpanda"@);
    reveal_strlit("nats");
    assert("nats"@.len() == 4);
    assert("nginx"@ != "nats"@);
    reveal_strlit("elasticsearch");
    assert("elasticsearch"@.len() == 13);
    assert("nginx"@ != "elasticsearch"@);
    reveal_strlit("es");
    assert("es"@.len() == 2);
    assert("nginx"@ != "es"@);
    reveal_strlit("minio");
    assert("nginx"@[0] != "minio"@[0]);
    assert("nginx"@ != "minio"@);
    reveal_strlit("prometheus");
    assert("prometheus"@.len() == 10);
    assert("nginx"@ != "prometheus"@);
    reveal_strlit("grafana");
    assert("grafana"@.len() == 7);
    assert("nginx"@ != "grafana"@);
    reveal_strlit("alertmanager");
    assert("alertmanager"@.len() == 12);
    assert("nginx"@ != "alertmanager"@);
    reveal_strlit("loki");
    assert("loki"@.len() == 4);
    assert("nginx"@ != "loki"@);
    reveal_strlit("tempo");
    assert("nginx"@[0] != "tempo"@[0]);
    assert("nginx"@ != "tempo"@);
}

proof fn lemma_compose_key_25()
    ensures
        compose_display("traefik"@) == Some("Traefik"@),
{
    reveal_strlit("traefik");
    assert("traefik"@.len() == 7);
    reveal_strlit("db");
    assert("db"@.len() == 2);
    assert("traefik"@ != "db"@);
    reveal_strlit("database");
    assert("database"@.len() == 8);
    assert("traefik"@ != "database"@);
    reveal_strlit("postgres");
    assert("postgres"@.len() == 8);
    assert("traefik"@ != "postgres"@);
    reveal_strlit("mysql");
    assert("mysql"@.len() == 5);
    assert("traefik"@ != "mysql"@);
    reveal_strlit("mariadb");
    assert("traefik"@[0] != "mariadb"@[0]);
    assert("traefik"@ != "mariadb"@);
    reveal_strlit("mongodb");
    assert("traefik"@[0] != "mongodb"@[0]);
    assert("traefik"@ != "mongodb"@);
    reveal_strlit("mongo");
    assert("mongo"@.len() == 5);
    assert("traefik"@ != "mongo"@);
    reveal_strlit("redis");
    assert("redis"@.len() == 5);
    assert("traefik"@ != "redis"@);
    reveal_strlit("cache");
    assert("cache"@.len() == 5);
    assert("traefik"@ != "cache"@);
    reveal_strlit("memcached");
    assert("memcached"@.len() == 9);
    assert("traefik"@ != "memcached"@);
    reveal_strlit("mq");
    assert("mq"@.len() == 2);
    assert("traefik"@ != "mq"@);
    reveal_strlit("rabbitmq");
    assert("rabbitmq"@.len() == 8);
    assert("traefik"@ != "rabbitmq"@);
    reveal_strlit("kafka");
    assert("kafka"@.len() == 5);
    assert("traefik"@ != "kafka"@);
    reveal_strlit("zookeeper");
    assert("zookeeper"@.len() == 9);
    assert("traefik"@ != "zookeeper"@);
    reveal_strlit("redpanda");
    assert("redpanda"@.len() == 8);
    assert("traefik"@ != "redpanda"@);
    reveal_strlit("nats");
    assert("nats"@.len() == 4);
    assert("traefik"@ != "nats"@);
    reveal_strlit("elasticsearch");
    assert("elasticsearch"@.len() == 13);
    assert("traefik"@ != "elasticsearch"@);
    reveal_strlit("es");
    assert("es"@.len() == 2);
    assert("traefik"@ != "es"@);
    reveal_strlit("minio");
    assert("minio"@.len() == 5);
    assert("traefik"@ != "minio"@);
    reveal_strlit("prometheus");
    assert("prometheus"@.len() == 10);
    assert("traefik"@ != "prometheus"@);
    reveal_strlit("grafana");
    assert("traefik"@[0] != "grafana"@[0]);
    assert("traefik"@ != "grafana"@);
    reveal_strlit("alertmanager");
    assert("alertmanager"@.len() == 12);
    assert("traefik"@ != "alertmanager"@);
    reveal_strlit("loki");
    assert("loki"@.len() == 4);
    assert("traefik"@ != "loki"@);
    reveal_strlit("tempo");
    assert("tempo"@.len() == 5);
    assert("traefik"@ != "tempo"@);
    reveal_strlit("nginx");
    assert("nginx"@.len() == 5);
    assert("traefik"@ != "nginx"@);
}

proof fn lemma_compose_key_26()
    ensures
        compose_display("caddy"@) == Some("Caddy"@),
{
    reveal_strlit("caddy");
    assert("caddy"@.len() == 5);
    reveal_strlit("db");
    assert("db"@.len() == 2);
    assert("caddy"@ != "db"@);
    reveal_strlit("database");
    assert("database"@.len() == 8);
    assert("caddy"@ != "database"@);
    reveal_strlit("postgres");
    assert("postgres"@.len() == 8);
    assert("caddy"@ != "postgres"@);
    reveal_strlit("mysql");
    assert("caddy"@[0] != "mysql"@[0]);
    assert("caddy"@ != "mysql"@);
    reveal_strlit("mariadb");
    assert("mariadb"@.len() == 7);
    assert("caddy"@ != "mariadb"@);
    reveal_strlit("mongodb");
    assert("mongodb"@.len() == 7);
    assert("caddy"@ != "mongodb"@);
    reveal_strlit("mongo");
    assert("caddy"@[0] != "mongo"@[0]);
    assert("caddy"@ != "mongo"@);
    reveal_strlit("redis");
    assert("caddy"@[0] != "redis"@[0]);
    assert("caddy"@ != "redis"@);
    reveal_strlit("cache");
    assert("caddy"@[2] != "cache"@[2]);
    assert("caddy"@ != "cache"@);
    reveal_strlit("memcached");
    assert("memcached"@.len() == 9);
    assert("caddy"@ != "memcached"@);
    reveal_strlit("mq");
    assert("mq"@.len() == 2);
    assert("caddy"@ != "mq"@);
    reveal_strlit("rabbitmq");
    assert("rabbitmq"@.len() == 8);
    assert("caddy"@ != "rabbitmq"@);
    reveal_strlit("kafka");
    assert("caddy"@[0] != "kafka"@[0]);
    assert("caddy"@ != "kafka"@);
    reveal_strlit("zookeeper");
    assert("zookeeper"@.len() == 9);
    assert("caddy"@ != "zookeeper"@);
    reveal_strlit("redpanda");
    assert("redpanda"@.len() == 8);
    assert("caddy"@ != "redpanda"@);
    reveal_strlit("nats");
    assert("nats"@.len() == 4);
    assert("caddy"@ != "nats"@);
    reveal_strlit("elasticsearch");
    assert("elasticsearch"@.len() == 13);
    assert("caddy"@ != "elasticsearch"@);
    reveal_strlit("es");
    assert("es"@.len() == 2);
    assert("caddy"@ != "es"@);
    reveal_strlit("minio");
    assert("caddy"@[0] != "minio"@[0]);
    assert("caddy"@ != "minio"@);
    reveal_strlit("prometheus");
    assert("prometheus"@.len() == 10);
    assert("caddy"@ != "prometheus"@);
    reveal_strlit("grafana");
    assert("grafana"@.len() == 7);
    assert("caddy"@ != "grafana"@);
    reveal_strlit("alertmanager");
    assert("alertmanager"@.len() == 12);
    assert("caddy"@ != "alertmanager"@);
    reveal_strlit("loki");
    assert("loki"@.len() == 4);
    assert("caddy"@ != "loki"@);
    reveal_strlit("tempo");
    assert("caddy"@[0] != "tempo"@[0]);
    assert("caddy"@ != "tempo"@);
    reveal_strlit("nginx");
    assert("caddy"@[0] != "nginx"@[0]);
    assert("caddy"@ != "nginx"@);
    reveal_strlit("traefik");
    assert("traefik"@.len() == 7);
    assert("caddy"@ != "traefik"@);
}

proof fn lemma_compose_key_27()
    ensures
        compose_display("vault"@) == Some("Vault"@),
{
    reveal_strlit("vault");
    assert("vault"@.len() == 5);
    reveal_strlit("db");
    assert("db"@.len() == 2);
    assert("vault"@ != "db"@);
    reveal_strlit("database");
    assert("database"@.len() == 8);
    assert("vault"@ != "database"@);
    reveal_strlit("postgres");
    assert("postgres"@.len() == 8);
    assert("vault"@ != "postgres"@);
    reveal_strlit("mysql");
    assert("vault"@[0] != "mysql"@[0]);
    assert("vault"@ != "mysql"@);
    reveal_strlit("mariadb");
    assert("mariadb"@.len() == 7);
    assert("vault"@ != "mariadb"@);
    reveal_strlit("mongodb");
    assert("mongodb"@.len() == 7);
    assert("vault"@ != "mongodb"@);
    reveal_strlit("mongo");
    assert("vault"@[0] != "mongo"@[0]);
    assert("vault"@ != "mongo"@);
    reveal_strlit("redis");
    assert("vault"@[0] != "redis"@[0]);
    assert("vault"@ != "redis"@);
    reveal_strlit("cache");
    assert("vault"@[0] != "cache"@[0]);
    assert("vault"@ != "cache"@);
    reveal_strlit("memcached");
    assert("memcached"@.len() == 9);
    assert("vault"@ != "memcached"@);
    reveal_strlit("mq");
    assert("mq"@.len() == 2);
    assert("vault"@ != "mq"@);
    reveal_strlit("rabbitmq");
    assert("rabbitmq"@.len() == 8);
    assert("vault"@ != "rabbitmq"@);
    reveal_strlit("kafka");
    assert("vault"@[0] != "kafka"@[0]);
    assert("vault"@ != "kafka"@);
    reveal_strlit("zookeeper");
    assert("zookeeper"@.len() == 9);
    assert("vault"@ != "zookeeper"@);
    reveal_strlit("redpanda");
    assert("redpanda"@.len() == 8);
    assert("vault"@ != "redpanda"@);
    reveal_strlit("nats");
    assert("nats"@.len() == 4);
    assert("vault"@ != "nats"@);
    reveal_strlit("elasticsearch");
    assert("elasticsearch"@.len() == 13);
    assert("vault"@ != "elasticsearch"@);
    reveal_strlit("es");
    assert("es"@.len() == 2);
    assert("vault"@ != "es"@);
    reveal_strlit("minio");
    assert("vault"@[0] != "minio"@[0]);
    assert("vault"@ != "minio"@);
    reveal_strlit("prometheus");
    assert("prometheus"@.len() == 10);
    assert("vault"@ != "prometheus"@);
    reveal_strlit("grafana");
    assert("grafana"@.len() == 7);
    assert("vault"@ != "grafana"@);
    reveal_strlit("alertmanager");
    assert("alertmanager"@.len() == 12);
    assert("vault"@ != "alertmanager"@);
    reveal_strlit("loki");
    assert("loki"@.len() == 4);
    assert("vault"@ != "loki"@);
    reveal_strlit("tempo");
    assert("vault"@[0] != "tempo"@[0]);
    assert("vault"@ != "tempo"@);
    reveal_strlit("nginx");
    assert("vault"@[0] != "nginx"@[0]);
    assert("vault"@ != "nginx"@);
    reveal_strlit("traefik");
    assert("traefik"@.len() == 7);
    assert("vault"@ != "traefik"@);
    reveal_strlit("caddy");
    assert("vault"@[0] != "caddy"@[0]);
    assert("vault"@ != "caddy"@);
}

proof fn lemma_compose_key_28()
    ensures
        compose_display("consul"@) == Some("Consul"@),
{
    reveal_strlit("consul");
    assert("consul"@.len() == 6);
    reveal_strlit("db");
    assert("db"@.len() == 2);
    assert("consul"@ != "db"@);
    reveal_strlit("database");
    assert("database"@.len() == 8);
    assert("consul"@ != "database"@);
    reveal_strlit("postgres");
    assert("postgres"@.len() == 8);
    assert("consul"@ != "postgres"@);
    reveal_strlit("mysql");
    assert("mysql"@.len() == 5);
    assert("consul"@ != "mysql"@);
    reveal_strlit("mariadb");
    assert("mariadb"@.len() == 7);
    assert("consul"@ != "mariadb"@);
    reveal_strlit("mongodb");
    assert("mongodb"@.len() == 7);
    assert("consul"@ != "mongodb"@);
    reveal_strlit("mongo");
    assert("mongo"@.len() == 5);
    assert("consul"@ != "mongo"@);
    reveal_strlit("redis");
    assert("redis"@.len() == 5);
    assert("consul"@ != "redis"@);
    reveal_strlit("cache");
    assert("cache"@.len() == 5);
    assert("consul"@ != "cache"@);
    reveal_strlit("memcached");
    assert("memcached"@.len() == 9);
    assert("consul"@ != "memcached"@);
    reveal_strlit("mq");
    assert("mq"@.len() == 2);
    assert("consul"@ != "mq"@);
    reveal_strlit("rabbitmq");
    assert("rabbitmq"@.len() == 8);
    assert("consul"@ != "rabbitmq"@);
    reveal_strlit("kafka");
    assert("kafka"@.len() == 5);
    assert("consul"@ != "kafka"@);
    reveal_strlit("zookeeper");
    assert("zookeeper"@.len() == 9);
    assert("consul"@ != "zookeeper"@);
    reveal_strlit("redpanda");
    assert("redpanda"@.len() == 8);
    assert("consul"@ != "redpanda"@);
    reveal_strlit("nats");
    assert("nats"@.len() == 4);
    assert("consul"@ != "nats"@);
    reveal_strlit("elasticsearch");
    assert("elasticsearch"@.len() == 13);
    assert("consul"@ != "elasticsearch"@);
    reveal_strlit("es");
    assert("es"@.len() == 2);
    assert("consul"@ != "es"@);
    reveal_strlit("minio");
    assert("minio"@.len() == 5);
    assert("consul"@ != "minio"@);
    reveal_strlit("prometheus");
    assert("prometheus"@.len() == 10);
    assert("consul"@ != "prometheus"@);
    reveal_strlit("grafana");
    assert("grafana"@.len() == 7);
    assert("consul"@ != "grafana"@);
    reveal_strlit("alertmanager");
    assert("alertmanager"@.len() == 12);
    assert("consul"@ != "alertmanager"@);
    reveal_strlit("loki");
    assert("loki"@.len() == 4);
    assert("consul"@ != "loki"@);
    reveal_strlit("tempo");
    assert("tempo"@.len() == 5);
    assert("consul"@ != "tempo"@);
    reveal_strlit("nginx");
    assert("nginx"@.len() == 5);
    assert("consul"@ != "nginx"@);
    reveal_strlit("traefik");
    assert("traefik"@.len() == 7);
    assert("consul"@ != "traefik"@);
    reveal_strlit("caddy");
    assert("caddy"@.len() == 5);
    assert("consul"@ != "caddy"@);
    reveal_strlit("vault");
    assert("vault"@.len() == 5);
    assert("consul"@ != "vault"@);
}

proof fn lemma_compose_key_29()
    ensures
        compose_display("keycloak"@) == Some("Keycloak"@),
{
    reveal_strlit("keycloak");
    assert("keycloak"@.len() == 8);
    reveal_strlit("db");
    assert("db"@.len() == 2);
    assert("keycloak"@ != "db"@);
    reveal_strlit("database");
    assert("keycloak"@[0] != "database"@[0]);
    assert("keycloak"@ != "database"@);
    reveal_strlit("postgres");
    assert("keycloak"@[0] != "postgres"@[0]);
    assert("keycloak"@ != "postgres"@);
    reveal_strlit("mysql");
    assert("mysql"@.len() == 5);
    assert("keycloak"@ != "mysql"@);
    reveal_strlit("mariadb");
    assert("mariadb"@.len() == 7);
    assert("keycloak"@ != "mariadb"@);
    reveal_strlit("mongodb");
    assert("mongodb"@.len() == 7);
    assert("keycloak"@ != "mongodb"@);
    reveal_strlit("mongo");
    assert("mongo"@.len() == 5);
    assert("keycloak"@ != "mongo"@);
    reveal_strlit("redis");
    assert("redis"@.len() == 5);
    assert("keycloak"@ != "redis"@);
    reveal_strlit("cache");
    assert("cache"@.len() == 5);
    assert("keycloak"@ != "cache"@);
    reveal_strlit("memcached");
    assert("memcached"@.len() == 9);
    assert("keycloak"@ != "memcached"@);
    reveal_strlit("mq");
    assert("mq"@.len() == 2);
    assert("keycloak"@ != "mq"@);
    reveal_strlit("rabbitmq");
    assert("keycloak"@[0] != "rabbitmq"@[0]);
    assert("keycloak"@ != "rabbitmq"@);
    reveal_strlit("kafka");
    assert("kafka"@.len() == 5);
    assert("keycloak"@ != "kafka"@);
    reveal_strlit("zookeeper");
    assert("zookeeper"@.len() == 9);
    assert("keycloak"@ != "zookeeper"@);
    reveal_strlit("redpanda");
    assert("keycloak"@[0] != "redpanda"@[0]);
    assert("keycloak"@ != "redpanda"@);
    reveal_strlit("nats");
    assert("nats"@.len() == 4);
    assert("keycloak"@ != "nats"@);
    reveal_strlit("elasticsearch");
    assert("elasticsearch"@.len() == 13);
    assert("keycloak"@ != "elasticsearch"@);
    reveal_strlit("es");
    assert("es"@.len() == 2);
    assert("keycloak"@ != "es"@);
    reveal_strlit("minio");
    assert("minio"@.len() == 5);
    assert("keycloak"@ != "minio"@);
    reveal_strlit("prometheus");
    assert("prometheus"@.len() == 10);
    assert("keycloak"@ != "prometheus"@);
    reveal_strlit("grafana");
    assert("grafana"@.len() == 7);
    assert("keycloak"@ != "grafana"@);
    reveal_strlit("alertmanager");
    assert("alertmanager"@.len() == 12);
    assert("keycloak"@ != "alertmanager"@);
    reveal_strlit("loki");
    assert("loki"@.len() == 4);
    assert("keycloak"@ != "loki"@);
    reveal_strlit("tempo");
    assert("tempo"@.len() == 5);
    assert("keycloak"@ != "tempo"@);
    reveal_strlit("nginx");
    assert("nginx"@.len() == 5);
    assert("keycloak"@ != "nginx"@);
    reveal_strlit("traefik");
    assert("traefik"@.len() == 7);
    assert("keycloak"@ != "traefik"@);
    reveal_strlit("caddy");
    assert("caddy"@.len() == 5);
    assert("keycloak"@ != "caddy"@);
    reveal_strlit("vault");
    assert("vault"@.len() == 5);
    assert("keycloak"@ != "vault"@);
    reveal_strlit("consul");
    assert("consul"@.len() == 6);
    assert("keycloak"@ != "consul"@);
}

proof fn lemma_compose_key_30()
    ensures
        compose_display("solr"@) == Some("Solr"@),
{
    reveal_strlit("solr");
    assert("solr"@.len() == 4);
    reveal_strlit("db");
    assert("db"@.len() == 2);
    assert("solr"@ != "db"@);
    reveal_strlit("database");
    assert("database"@.len() == 8);
    assert("solr"@ != "database"@);
    reveal_strlit("postgres");
    assert("postgres"@.len() == 8);
    assert("solr"@ != "postgres"@);
    reveal_strlit("mysql");
    assert("mysql"@.len() == 5);
    assert("solr"@ != "mysql"@);
    reveal_strlit("mariadb");
    assert("mariadb"@.len() == 7);
    assert("solr"@ != "mariadb"@);
    reveal_strlit("mongodb");
    assert("mongodb"@.len() == 7);
    assert("solr"@ != "mongodb"@);
    reveal_strlit("mongo");
    assert("mongo"@.len() == 5);
    assert("solr"@ != "mongo"@);
    reveal_strlit("redis");
    assert("redis"@.len() == 5);
    assert("solr"@ != "redis"@);
    reveal_strlit("cache");
    assert("cache"@.len() == 5);
    assert("solr"@ != "cache"@);
    reveal_strlit("memcached");
    assert("memcached"@.len() == 9);
    assert("solr"@ != "memcached"@);
    reveal_strlit("mq");
    assert("mq"@.len() == 2);
    assert("solr"@ != "mq"@);
    reveal_strlit("rabbitmq");
    assert("rabbitmq"@.len() == 8);
    assert("solr"@ != "rabbitmq"@);
    reveal_strlit("kafka");
    assert("kafka"@.len() == 5);
    assert("solr"@ != "kafka"@);
    reveal_strlit("zookeeper");
    assert("zookeeper"@.len() == 9);
    assert("solr"@ != "zookeeper"@);
    reveal_strlit("redpanda");
    assert("redpanda"@.len() == 8);
    assert("solr"@ != "redpanda"@);
    reveal_strlit("nats");
    assert("solr"@[0] != "nats"@[0]);
    assert("solr"@ != "nats"@);
    reveal_strlit("elasticsearch");
    assert("elasticsearch"@.len() == 13);
    assert("solr"@ != "elasticsearch"@);
    reveal_strlit("es");
    assert("es"@.len() == 2);
    assert("solr"@ != "es"@);
    reveal_strlit("minio");
    assert("minio"@.len() == 5);
    assert("solr"@ != "minio"@);
    reveal_strlit("prometheus");
    assert("prometheus"@.len() == 10);
    assert("solr"@ != "prometheus"@);
    reveal_strlit("grafana");
    assert("grafana"@.len() == 7);
    assert("solr"@ != "grafana"@);
    reveal_strlit("alertmanager");
    assert("alertmanager"@.len() == 12);
    assert("solr"@ != "alertmanager"@);
    reveal_strlit("loki");
    assert("solr"@[0] != "loki"@[0]);
    assert("solr"@ != "loki"@);
    reveal_strlit("tempo");
    assert("tempo"@.len() == 5);
    assert("solr"@ != "tempo"@);
    reveal_strlit("nginx");
    assert("nginx"@.len() == 5);
    assert("solr"@ != "nginx"@);
    reveal_strlit("traefik");
    assert("traefik"@.len() == 7);
    assert("solr"@ != "traefik"@);
    reveal_strlit("caddy");
    assert("caddy"@.len() == 5);
    assert("solr"@ != "caddy"@);
    reveal_strlit("vault");
    assert("vault"@.len() == 5);
    assert("solr"@ != "vault"@);
    reveal_strlit("consul");
    assert("consul"@.len() == 6);
    assert("solr"@ != "consul"@);
    reveal_strlit("keycloak");
    assert("keycloak"@.len() == 8);
    assert("solr"@ != "keycloak"@);
}

proof fn lemma_compose_key_31()
    ensures
        compose_display("cassandra"@) == Some("Cassandra"@),
{
    reveal_strlit("cassandra");
    assert("cassandra"@.len() == 9);
    reveal_strlit("db");
    assert("db"@.len() == 2);
    assert("cassandra"@ != "db"@);
    reveal_strlit("database");
    assert("database"@.len() == 8);
    assert("cassandra"@ != "database"@);
    reveal_strlit("postgres");
    assert("postgres"@.len() == 8);
    assert("cassandra"@ != "postgres"@);
    reveal_strlit("mysql");
    assert("mysql"@.len() == 5);
    assert("cassandra"@ != "mysql"@);
    reveal_strlit("mariadb");
    assert("mariadb"@.len() == 7);
    assert("cassandra"@ != "mariadb"@);
    reveal_strlit("mongodb");
    assert("mongodb"@.len() == 7);
    assert("cassandra"@ != "mongodb"@);
    reveal_strlit("mongo");
    assert("mongo"@.len() == 5);
    assert("cassandra"@ != "mongo"@);
    reveal_strlit("redis");
    assert("redis"@.len() == 5);
    assert("cassandra"@ != "redis"@);
    reveal_strlit("cache");
    assert("cache"@.len() == 5);
    assert("cassandra"@ != "cache"@);
    reveal_strlit("memcached");
    assert("cassandra"@[0] != "memcached"@[0]);
    assert("cassandra"@ != "memcached"@);
    reveal_strlit("mq");
    assert("mq"@.len() == 2);
    assert("cassandra"@ != "mq"@);
    reveal_strlit("rabbitmq");
    assert("rabbitmq"@.len() == 8);
    assert("cassandra"@ != "rabbitmq"@);
    reveal_strlit("kafka");
    assert("kafka"@.len() == 5);
    assert("cassandra"@ != "kafka"@);
    reveal_strlit("zookeeper");
    assert("cassandra"@[0] != "zookeeper"@[0]);
    assert("cassandra"@ != "zookeeper"@);
    reveal_strlit("redpanda");
    assert("redpanda"@.len() == 8);
    assert("cassandra"@ != "redpanda"@);
    reveal_strlit("nats");
    assert("nats"@.len() == 4);
    assert("cassandra"@ != "nats"@);
    reveal_strlit("elasticsearch");
    assert("elasticsearch"@.len() == 13);
    assert("cassandra"@ != "elasticsearch"@);
    reveal_strlit("es");
    assert("es"@.len() == 2);
    assert("cassandra"@ != "es"@);
    reveal_strlit("minio");
    assert("minio"@.len() == 5);
    assert("cassandra"@ != "minio"@);
    reveal_strlit("prometheus");
    assert("prometheus"@.len() == 10);
    assert("cassandra"@ != "prometheus"@);
    reveal_strlit("grafana");
    assert("grafana"@.len() == 7);
    assert("cassandra"@ != "grafana"@);
    reveal_strlit("alertmanager");
    assert("alertmanager"@.len() == 12);
    assert("cassandra"@ != "alertmanager"@);
    reveal_strlit("loki");
    assert("loki"@.len() == 4);
    assert("cassandra"@ != "loki"@);
    reveal_strlit("tempo");
    assert("tempo"@.len() == 5);
    assert("cassandra"@ != "tempo"@);
    reveal_strlit("nginx");
    assert("nginx"@.len() == 5);
    assert("cassandra"@ != "nginx"@);
    reveal_strlit("traefik");
    assert("traefik"@.len() == 7);
    assert("cassandra"@ != "traefik"@);
    reveal_strlit("caddy");
    assert("caddy"@.len() == 5);
    assert("cassandra"@ != "caddy"@);
    reveal_strlit("vault");
    assert("vault"@.len() == 5);
    assert("cassandra"@ != "vault"@);
    reveal_strlit("consul");
    assert("consul"@.len() == 6);
    assert("cassandra"@ != "consul"@);
    reveal_strlit("keycloak");
    assert("keycloak"@.len() == 8);
    assert("cassandra"@ != "keycloak"@);
    reveal_strlit("solr");
    assert("solr"@.len() == 4);
    assert("cassandra"@ != "solr"@);
}

proof fn lemma_compose_key_32()
    ensures
        compose_display("clickhouse"@) == Some("ClickHouse"@),
{
    reveal_strlit("clickhouse");
    assert("clickhouse"@.len() == 10);
    reveal_strlit("db");
    assert("db"@.len() == 2);
    assert("clickhouse"@ != "db"@);
    reveal_strlit("database");
    assert("database"@.len() == 8);
    assert("clickhouse"@ != "database"@);
    reveal_strlit("postgres");
    assert("postgres"@.len() == 8);
    assert("clickhouse"@ != "postgres"@);
    reveal_strlit("mysql");
    assert("mysql"@.len() == 5);
    assert("clickhouse"@ != "mysql"@);
    reveal_strlit("mariadb");
    assert("mariadb"@.len() == 7);
    assert("clickhouse"@ != "mariadb"@);
    reveal_strlit("mongodb");
    assert("mongodb"@.len() == 7);
    assert("clickhouse"@ != "mongodb"@);
    reveal_strlit("mongo");
    assert("mongo"@.len() == 5);
    assert("clickhouse"@ != "mongo"@);
    reveal_strlit("redis");
    assert("redis"@.len() == 5);
    assert("clickhouse"@ != "redis"@);
    reveal_strlit("cache");
    assert("cache"@.len() == 5);
    assert("clickhouse"@ != "cache"@);
    reveal_strlit("memcached");
    assert("memcached"@.len() == 9);
    assert("clickhouse"@ != "memcached"@);
    reveal_strlit("mq");
    assert("mq"@.len() == 2);
    assert("clickhouse"@ != "mq"@);
    reveal_strlit("rabbitmq");
    assert("rabbitmq"@.len() == 8);
    assert("clickhouse"@ != "rabbitmq"@);
    reveal_strlit("kafka");
    assert("kafka"@.len() == 5);
    assert("clickhouse"@ != "kafka"@);
    reveal_strlit("zookeeper");
    assert("zookeeper"@.len() == 9);
    assert("clickhouse"@ != "zookeeper"@);
    reveal_strlit("redpanda");
    assert("redpanda"@.len() == 8);
    assert("clickhouse"@ != "redpanda"@);
    reveal_strlit("nats");
    assert("nats"@.len() == 4);
    assert("clickhouse"@ != "nats"@);
    reveal_strlit("elasticsearch");
    assert("elasticsearch"@.len() == 13);
    assert("clickhouse"@ != "elasticsearch"@);
    reveal_strlit("es");
    assert("es"@.len() == 2);
    assert("clickhouse"@ != "es"@);
    reveal_strlit("minio");
    assert("minio"@.len() == 5);
    assert("clickhouse"@ != "minio"@);
    reveal_strlit("prometheus");
    assert("clickhouse"@[0] != "prometheus"@[0]);
    assert("clickhouse"@ != "prometheus"@);
    reveal_strlit("grafana");
    assert("grafana"@.len() == 7);
    assert("clickhouse"@ != "grafana"@);
    reveal_strlit("alertmanager");
    assert("alertmanager"@.len() == 12);
    assert("clickhouse"@ != "alertmanager"@);
    reveal_strlit("loki");
    assert("loki"@.len() == 4);
    assert("clickhouse"@ != "loki"@);
    reveal_strlit("tempo");
    assert("tempo"@.len() == 5);
    assert("clickhouse"@ != "tempo"@);
    reveal_strlit("nginx");
    assert("nginx"@.len() == 5);
    assert("clickhouse"@ != "nginx"@);
    reveal_strlit("traefik");
    assert("traefik"@.len() == 7);
    assert("clickhouse"@ != "traefik"@);
    reveal_strlit("caddy");
    assert("caddy"@.len() == 5);
    assert("clickhouse"@ != "caddy"@);
    reveal_strlit("vault");
    assert("vault"@.len() == 5);
    assert("clickhouse"@ != "vault"@);
    reveal_strlit("consul");
    assert("consul"@.len() == 6);
    assert("clickhouse"@ != "consul"@);
    reveal_strlit("keycloak");
    assert("keycloak"@.len() == 8);
    assert("clickhouse"@ != "keycloak"@);
    reveal_strlit("solr");
    assert("solr"@.len() == 4);
    assert("clickhouse"@ != "solr"@);
    reveal_strlit("cassandra");
    assert("cassandra"@.len() == 9);
    assert("clickhouse"@ != "cassandra"@);
}

proof fn lemma_compose_key_33()
    ensures
        compose_display("mailhog"@) == Some("MailHog"@),
{
    reveal_strlit("mailhog");
    assert("mailhog"@.len() == 7);
    reveal_strlit("db");
    assert("db"@.len() == 2);
    assert("mailhog"@ != "db"@);
    reveal_strlit("database");
    assert("database"@.len() == 8);
    assert("mailhog"@ != "database"@);
    reveal_strlit("postgres");
    assert("postgres"@.len() == 8);
    assert("mailhog"@ != "postgres"@);
    reveal_strlit("mysql");
    assert("mysql"@.len() == 5);
    assert("mailhog"@ != "mysql"@);
    reveal_strlit("mariadb");
    assert("mailhog"@[2] != "mariadb"@[2]);
    assert("mailhog"@ != "mariadb"@);
    reveal_strlit("mongodb");
    assert("mailhog"@[1] != "mongodb"@[1]);
    assert("mailhog"@ != "mongodb"@);
    reveal_strlit("mongo");
    assert("mongo"@.len() == 5);
    assert("mailhog"@ != "mongo"@);
    reveal_strlit("redis");
    assert("redis"@.len() == 5);
    assert("mailhog"@ != "redis"@);
    reveal_strlit("cache");
    assert("cache"@.len() == 5);
    assert("mailhog"@ != "cache"@);
    reveal_strlit("memcached");
    assert("memcached"@.len() == 9);
    assert("mailhog"@ != "memcached"@);
    reveal_strlit("mq");
    assert("mq"@.len() == 2);
    assert("mailhog"@ != "mq"@);
    reveal_strlit("rabbitmq");
    assert("rabbitmq"@.len() == 8);
    assert("mailhog"@ != "rabbitmq"@);
    reveal_strlit("kafka");
    assert("kafka"@.len() == 5);
    assert("mailhog"@ != "kafka"@);
    reveal_strlit("zookeeper");
    assert("zookeeper"@.len() == 9);
    assert("mailhog"@ != "zookeeper"@);
    reveal_strlit("redpanda");
    assert("redpanda"@.len() == 8);
    assert("mailhog"@ != "redpanda"@);
    reveal_strlit("nats");
    assert("nats"@.len() == 4);
    assert("mailhog"@ != "nats"@);
    reveal_strlit("elasticsearch");
    assert("elasticsearch"@.len() == 13);
    assert("mailhog"@ != "elasticsearch"@);
    reveal_strlit("es");
    assert("es"@.len() == 2);
    assert("mailhog"@ != "es"@);
    reveal_strlit("minio");
    assert("minio"@.len() == 5);
    assert("mailhog"@ != "minio"@);
    reveal_strlit("prometheus");
    assert("prometheus"@.len() == 10);
    assert("mailhog"@ != "prometheus"@);
    reveal_strlit("grafana");
    assert("mailhog"@[0] != "grafana"@[0]);
    assert("mailhog"@ != "grafana"@);
    reveal_strlit("alertmanager");
    assert("alertmanager"@.len() == 12);
    assert("mailhog"@ != "alertmanager"@);
    reveal_strlit("loki");
    assert("loki"@.len() == 4);
    assert("mailhog"@ != "loki"@);
    reveal_strlit("tempo");
    assert("tempo"@.len() == 5);
    assert("mailhog"@ != "tempo"@);
    reveal_strlit("nginx");
    assert("nginx"@.len() == 5);
    assert("mailhog"@ != "nginx"@);
    reveal_strlit("traefik");
    assert("mailhog"@[0] != "traefik"@[0]);
    assert("mailhog"@ != "traefik"@);
    reveal_strlit("caddy");
    assert("caddy"@.len() == 5);
    assert("mailhog"@ != "caddy"@);
    reveal_strlit("vault");
    assert("vault"@.len() == 5);
    assert("mailhog"@ != "vault"@);
    reveal_strlit("consul");
    assert("consul"@.len() == 6);
    assert("mailhog"@ != "consul"@);
    reveal_strlit("keycloak");
    assert("keycloak"@.len() == 8);
    assert("mailhog"@ != "keycloak"@);
    reveal_strlit("solr");
    assert("solr"@.len() == 4);
    assert("mailhog"@ != "solr"@);
    reveal_strlit("cassandra");
    assert("cassandra"@.len() == 9);
    assert("mailhog"@ != "cassandra"@);
    reveal_strlit("clickhouse");
    assert("clickhouse"@.len() == 10);
    assert("mailhog"@ != "clickhouse"@);
}

proof fn lemma_compose_key_34()
    ensures
        compose_display("mailpit"@) == Some("Mailpit"@),
{
    reveal_strlit("mailpit");
    assert("mailpit"@.len() == 7);
    reveal_strlit("db");
    assert("db"@.len() == 2);
    assert("mailpit"@ != "db"@);
    reveal_strlit("database");
    assert("database"@.len() == 8);
    assert("mailpit"@ != "database"@);
    reveal_strlit("postgres");
    assert("postgres"@.len() == 8);
    assert("mailpit"@ != "postgres"@);
    reveal_strlit("mysql");
    assert("mysql"@.len() == 5);
    assert("mailpit"@ != "mysql"@);
    reveal_strlit("mariadb");
    assert("mailpit"@[2] != "mariadb"@[2]);
    assert("mailpit"@ != "mariadb"@);
    reveal_strlit("mongodb");
    assert("mailpit"@[1] != "mongodb"@[1]);
    assert("mailpit"@ != "mongodb"@);
    reveal_strlit("mongo");
    assert("mongo"@.len() == 5);
    assert("mailpit"@ != "mongo"@);
    reveal_strlit("redis");
    assert("redis"@.len() == 5);
    assert("mailpit"@ != "redis"@);
    reveal_strlit("cache");
    assert("cache"@.len() == 5);
    assert("mailpit"@ != "cache"@);
    reveal_strlit("memcached");
    assert("memcached"@.len() == 9);
    assert("mailpit"@ != "memcached"@);
    reveal_strlit("mq");
    assert("mq"@.len() == 2);
    assert("mailpit"@ != "mq"@);
    reveal_strlit("rabbitmq");
    assert("rabbitmq"@.len() == 8);
    assert("mailpit"@ != "rabbitmq"@);
    reveal_strlit("kafka");
    assert("kafka"@.len() == 5);
    assert("mailpit"@ != "kafka"@);
    reveal_strlit("zookeeper");
    assert("zookeeper"@.len() == 9);
    assert("mailpit"@ != "zookeeper"@);
    reveal_strlit("redpanda");
    assert("redpanda"@.len() == 8);
    assert("mailpit"@ != "redpanda"@);
    reveal_strlit("nats");
    assert("nats"@.len() == 4);
    assert("mailpit"@ != "nats"@);
    reveal_strlit("elasticsearch");
    assert("elasticsearch"@.len() == 13);
    assert("mailpit"@ != "elasticsearch"@);
    reveal_strlit("es");
    assert("es"@.len() == 2);
    assert("mailpit"@ != "es"@);
    reveal_strlit("minio");
    assert("minio"@.len() == 5);
    assert("mailpit"@ != "minio"@);
    reveal_strlit("prometheus");
    assert("prometheus"@.len() == 10);
    assert("mailpit"@ != "prometheus"@);
    reveal_strlit("grafana");
    assert("mailpit"@[0] != "grafana"@[0]);
    assert("mailpit"@ != "grafana"@);
    reveal_strlit("alertmanager");
    assert("alertmanager"@.len() == 12);
    assert("mailpit"@ != "alertmanager"@);
    reveal_strlit("loki");
    assert("loki"@.len() == 4);
    assert("mailpit"@ != "loki"@);
    reveal_strlit("tempo");
    assert("tempo"@.len() == 5);
    assert("mailpit"@ != "tempo"@);
    reveal_strlit("nginx");
    assert("nginx"@.len() == 5);
    assert("mailpit"@ != "nginx"@);
    reveal_strlit("traefik");
    assert("mailpit"@[0] != "traefik"@[0]);
    assert("mailpit"@ != "traefik"@);
    reveal_strlit("caddy");
    assert("caddy"@.len() == 5);
    assert("mailpit"@ != "caddy"@);
    reveal_strlit("vault");
    assert("vault"@.len() == 5);
    assert("mailpit"@ != "vault"@);
    reveal_strlit("consul");
    assert("consul"@.len() == 6);
    assert("mailpit"@ != "consul"@);
    reveal_strlit("keycloak");
    assert("keycloak"@.len() == 8);
    assert("mailpit"@ != "keycloak"@);
    reveal_strlit("solr");
    assert("solr"@.len() == 4);
    assert("mailpit"@ != "solr"@);
    reveal_strlit("cassandra");
    assert("cassandra"@.len() == 9);
    assert("mailpit"@ != "cassandra"@);
    reveal_strlit("clickhouse");
    assert("clickhouse"@.len() == 10);
    assert("mailpit"@ != "clickhouse"@);
    reveal_strlit("mailhog");
    assert("mailpit"@[4] != "mailhog"@[4]);
    assert("mailpit"@ != "mailhog"@);
}

proof fn lemma_compose_key_35()
    ensures
        compose_display("adminer"@) == Some("Adminer"@),
{
    reveal_strlit("adminer");
    assert("adminer"@.len() == 7);
    reveal_strlit("db");
    assert("db"@.len() == 2);
    assert("adminer"@ != "db"@);
    reveal_strlit("database");
    assert("database"@.len() == 8);
    assert("adminer"@ != "database"@);
    reveal_strlit("postgres");
    assert("postgres"@.len() == 8);
    assert("adminer"@ != "postgres"@);
    reveal_strlit("mysql");
    assert("mysql"@.len() == 5);
    assert("adminer"@ != "mysql"@);
    reveal_strlit("mariadb");
    assert("adminer"@[0] != "mariadb"@[0]);
    assert("adminer"@ != "mariadb"@);
    reveal_strlit("mongodb");
    assert("adminer"@[0] != "mongodb"@[0]);
    assert("adminer"@ != "mongodb"@);
    reveal_strlit("mongo");
    assert("mongo"@.len() == 5);
    assert("adminer"@ != "mongo"@);
    reveal_strlit("redis");
    assert("redis"@.len() == 5);
    assert("adminer"@ != "redis"@);
    reveal_strlit("cache");
    assert("cache"@.len() == 5);
    assert("adminer"@ != "cache"@);
    reveal_strlit("memcached");
    assert("memcached"@.len() == 9);
    assert("adminer"@ != "memcached"@);
    reveal_strlit("mq");
    assert("mq"@.len() == 2);
    assert("adminer"@ != "mq"@);
    reveal_strlit("rabbitmq");
    assert("rabbitmq"@.len() == 8);
    assert("adminer"@ != "rabbitmq"@);
    reveal_strlit("kafka");
    assert("kafka"@.len() == 5);
    assert("adminer"@ != "kafka"@);
    reveal_strlit("zookeeper");
    assert("zookeeper"@.len() == 9);
    assert("adminer"@ != "zookeeper"@);
    reveal_strlit("redpanda");
    assert("redpanda"@.len() == 8);
    assert("adminer"@ != "redpanda"@);
    reveal_strlit("nats");
    assert("nats"@.len() == 4);
    assert("adminer"@ != "nats"@);
    reveal_strlit("elasticsearch");
    assert("elasticsearch"@.len() == 13);
    assert("adminer"@ != "elasticsearch"@);
    reveal_strlit("es");
    assert("es"@.len() == 2);
    assert("adminer"@ != "es"@);
    reveal_strlit("minio");
    assert("minio"@.len() == 5);
    assert("adminer"@ != "minio"@);
    reveal_strlit("prometheus");
    assert("prometheus"@.len() == 10);
    assert("adminer"@ != "prometheus"@);
    reveal_strlit("grafana");
    assert("adminer"@[0] != "grafana"@[0]);
    assert("adminer"@ != "grafana"@);
    reveal_strlit("alertmanager");
    assert("alertmanager"@.len() == 12);
    assert("adminer"@ != "alertmanager"@);
    reveal_strlit("loki");
    assert("loki"@.len() == 4);
    assert("adminer"@ != "loki"@);
    reveal_strlit("tempo");
    assert("tempo"@.len() == 5);
    assert("adminer"@ != "tempo"@);
    reveal_strlit("nginx");
    assert("nginx"@.len() == 5);
    assert("adminer"@ != "nginx"@);
    reveal_strlit("traefik");
    assert("adminer"@[0] != "traefik"@[0]);
    assert("adminer"@ != "traefik"@);
    reveal_strlit("caddy");
    assert("caddy"@.len() == 5);
    assert("adminer"@ != "caddy"@);
    reveal_strlit("vault");
    assert("vault"@.len() == 5);
    assert("adminer"@ != "vault"@);
    reveal_strlit("consul");
    assert("consul"@.len() == 6);
    assert("adminer"@ != "consul"@);
    reveal_strlit("keycloak");
    assert("keycloak"@.len() == 8);
    assert("adminer"@ != "keycloak"@);
    reveal_strlit("solr");
    assert("solr"@.len() == 4);
    assert("adminer"@ != "solr"@);
    reveal_strlit("cassandra");
    assert("cassandra"@.len() == 9);
    assert("adminer"@ != "cassandra"@);
    reveal_strlit("clickhouse");
    assert("clickhouse"@.len() == 10);
    assert("adminer"@ != "clickhouse"@);
    reveal_strlit("mailhog");
    assert("adminer"@[0] != "mailhog"@[0]);
    assert("adminer"@ != "mailhog"@);
    reveal_strlit("mailpit");
    assert("adminer"@[0] != "mailpit"@[0]);
    assert("adminer"@ != "mailpit"@);
}

proof fn lemma_compose_key_36()
    ensures
        compose_display("pgadmin"@) == Some("pgAdmin"@),
{
    reveal_strlit("pgadmin");
    assert("pgadmin"@.len() == 7);
    reveal_strlit("db");
    assert("db"@.len() == 2);
    assert("pgadmin"@ != "db"@);
    reveal_strlit("database");
    assert("database"@.len() == 8);
    assert("pgadmin"@ != "database"@);
    reveal_strlit("postgres");
    assert("postgres"@.len() == 8);
    assert("pgadmin"@ != "postgres"@);
    reveal_strlit("mysql");
    assert("mysql"@.len() == 5);
    assert("pgadmin"@ != "mysql"@);
    reveal_strlit("mariadb");
    assert("pgadmin"@[0] != "mariadb"@[0]);
    assert("pgadmin"@ != "mariadb"@);
    reveal_strlit("mongodb");
    assert("pgadmin"@[0] != "mongodb"@[0]);
    assert("pgadmin"@ != "mongodb"@);
    reveal_strlit("mongo");
    assert("mongo"@.len() == 5);
    assert("pgadmin"@ != "mongo"@);
    reveal_strlit("redis");
    assert("redis"@.len() == 5);
    assert("pgadmin"@ != "redis"@);
    reveal_strlit("cache");
    assert("cache"@.len() == 5);
    assert("pgadmin"@ != "cache"@);
    reveal_strlit("memcached");
    assert("memcached"@.len() == 9);
    assert("pgadmin"@ != "memcached"@);
    reveal_strlit("mq");
    assert("mq"@.len() == 2);
    assert("pgadmin"@ != "mq"@);
    reveal_strlit("rabbitmq");
    assert("rabbitmq"@.len() == 8);
    assert("pgadmin"@ != "rabbitmq"@);
    reveal_strlit("kafka");
    assert("kafka"@.len() == 5);
    assert("pgadmin"@ != "kafka"@);
    reveal_strlit("zookeeper");
    assert("zookeeper"@.len() == 9);
    assert("pgadmin"@ != "zookeeper"@);
    reveal_strlit("redpanda");
    assert("redpanda"@.len() == 8);
    assert("pgadmin"@ != "redpanda"@);
    reveal_strlit("nats");
    assert("nats"@.len() == 4);
    assert("pgadmin"@ != "nats"@);
    reveal_strlit("elasticsearch");
    assert("elasticsearch"@.len() == 13);
    assert("pgadmin"@ != "elasticsearch"@);
    reveal_strlit("es");
    assert("es"@.len() == 2);
    assert("pgadmin"@ != "es"@);
    reveal_strlit("minio");
    assert("minio"@.len() == 5);
    assert("pgadmin"@ != "minio"@);
    reveal_strlit("prometheus");
    assert("prometheus"@.len() == 10);
    assert("pgadmin"@ != "prometheus"@);
    reveal_strlit("grafana");
    assert("pgadmin"@[0] != "grafana"@[0]);
    assert("pgadmin"@ != "grafana"@);
    reveal_strlit("alertmanager");
    assert("alertmanager"@.len() == 12);
    assert("pgadmin"@ != "alertmanager"@);
    reveal_strlit("loki");
    assert("loki"@.len() == 4);
    assert("pgadmin"@ != "loki"@);
    reveal_strlit("tempo");
    assert("tempo"@.len() == 5);
    assert("pgadmin"@ != "tempo"@);
    reveal_strlit("nginx");
    assert("nginx"@.len() == 5);
    assert("pgadmin"@ != "nginx"@);
    reveal_strlit("traefik");
    assert("pgadmin"@[0] != "traefik"@[0]);
    assert("pgadmin"@ != "traefik"@);
    reveal_strlit("caddy");
    assert("caddy"@.len() == 5);
    assert("pgadmin"@ != "caddy"@);
    reveal_strlit("vault");
    assert("vault"@.len() == 5);
    assert("pgadmin"@ != "vault"@);
    reveal_strlit("consul");
    assert("consul"@.len() == 6);
    assert("pgadmin"@ != "consul"@);
    reveal_strlit("keycloak");
    assert("keycloak"@.len() == 8);
    assert("pgadmin"@ != "keycloak"@);
    reveal_strlit("solr");
    assert("solr"@.len() == 4);
    assert("pgadmin"@ != "solr"@);
    reveal_strlit("cassandra");
    assert("cassandra"@.len() == 9);
    assert("pgadmin"@ != "cassandra"@);
    reveal_strlit("clickhouse");
    assert("clickhouse"@.len() == 10);
    assert("pgadmin"@ != "clickhouse"@);
    reveal_strlit("mailhog");
    assert("pgadmin"@[0] != "mailhog"@[0]);
    assert("pgadmin"@ != "mailhog"@);
    reveal_strlit("mailpit");
    assert("pgadmin"@[0] != "mailpit"@[0]);
    assert("pgadmin"@ != "mailpit"@);
    reveal_strlit("adminer");
    assert("pgadmin"@[0] != "adminer"@[0]);
    assert("pgadmin"@ != "adminer"@);
}

proof fn lemma_compose_key_37()
    ensures
        compose_display("phpmyadmin"@) == Some("phpMyAdmin"@),
{
    reveal_strlit("phpmyadmin");
    assert("phpmyadmin"@.len() == 10);
    reveal_strlit("db");
    assert("db"@.len() == 2);
    assert("phpmyadmin"@ != "db"@);
    reveal_strlit("database");
    assert("database"@.len() == 8);
    assert("phpmyadmin"@ != "database"@);
    reveal_strlit("postgres");
    assert("postgres"@.len() == 8);
    assert("phpmyadmin"@ != "postgres"@);
    reveal_strlit("mysql");
    assert("mysql"@.len() == 5);
    assert("phpmyadmin"@ != "mysql"@);
    reveal_strlit("mariadb");
    assert("mariadb"@.len() == 7);
    assert("phpmyadmin"@ != "mariadb"@);
    reveal_strlit("mongodb");
    assert("mongodb"@.len() == 7);
    assert("phpmyadmin"@ != "mongodb"@);
    reveal_strlit("mongo");
    assert("mongo"@.len() == 5);
    assert("phpmyadmin"@ != "mongo"@);
    reveal_strlit("redis");
    assert("redis"@.len() == 5);
    assert("phpmyadmin"@ != "redis"@);
    reveal_strlit("cache");
    assert("cache"@.len() == 5);
    assert("phpmyadmin"@ != "cache"@);
    reveal_strlit("memcached");
    assert("memcached"@.len() == 9);
    assert("phpmyadmin"@ != "memcached"@);
    reveal_strlit("mq");
    assert("mq"@.len() == 2);
    assert("phpmyadmin"@ != "mq"@);
    reveal_strlit("rabbitmq");
    assert("rabbitmq"@.len() == 8);
    assert("phpmyadmin"@ != "rabbitmq"@);
    reveal_strlit("kafka");
    assert("kafka"@.len() == 5);
    assert("phpmyadmin"@ != "kafka"@);
    reveal_strlit("zookeeper");
    assert("zookeeper"@.len() == 9);
    assert("phpmyadmin"@ != "zookeeper"@);
    reveal_strlit("redpanda");
    assert("redpanda"@.len() == 8);
    assert("phpmyadmin"@ != "redpanda"@);
    reveal_strlit("nats");
    assert("nats"@.len() == 4);
    assert("phpmyadmin"@ != "nats"@);
    reveal_strlit("elasticsearch");
    assert("elasticsearch"@.len() == 13);
    assert("phpmyadmin"@ != "elasticsearch"@);
    reveal_strlit("es");
    assert("es"@.len() == 2);
    assert("phpmyadmin"@ != "es"@);
    reveal_strlit("minio");
    assert("minio"@.len() == 5);
    assert("phpmyadmin"@ != "minio"@);
    reveal_strlit("prometheus");
    assert("phpmyadmin"@[1] != "prometheus"@[1]);
    assert("phpmyadmin"@ != "prometheus"@);
    reveal_strlit("grafana");
    assert("grafana"@.len() == 7);
    assert("phpmyadmin"@ != "grafana"@);
    reveal_strlit("alertmanager");
    assert("alertmanager"@.len() == 12);
    assert("phpmyadmin"@ != "alertmanager"@);
    reveal_strlit("loki");
    assert("loki"@.len() == 4);
    assert("phpmyadmin"@ != "loki"@);
    reveal_strlit("tempo");
    assert("tempo"@.len() == 5);
    assert("phpmyadmin"@ != "tempo"@);
    reveal_strlit("nginx");
    assert("nginx"@.len() == 5);
    assert("phpmyadmin"@ != "nginx"@);
    reveal_strlit("traefik");
    assert("traefik"@.len() == 7);
    assert("phpmyadmin"@ != "traefik"@);
    reveal_strlit("caddy");
    assert("caddy"@.len() == 5);
    assert("phpmyadmin"@ != "caddy"@);
    reveal_strlit("vault");
    assert("vault"@.len() == 5);
    assert("phpmyadmin"@ != "vault"@);
    reveal_strlit("consul");
    assert("consul"@.len() == 6);
    assert("phpmyadmin"@ != "consul"@);
    reveal_strlit("keycloak");
    assert("keycloak"@.len() == 8);
    assert("phpmyadmin"@ != "keycloak"@);
    reveal_strlit("solr");
    assert("solr"@.len() == 4);
    assert("phpmyadmin"@ != "solr"@);
    reveal_strlit("cassandra");
    assert("cassandra"@.len() == 9);
    assert("phpmyadmin"@ != "cassandra"@);
    reveal_strlit("clickhouse");
    assert("phpmyadmin"@[0] != "clickhouse"@[0]);
    assert("phpmyadmin"@ != "clickhouse"@);
    reveal_strlit("mailhog");
    assert("mailhog"@.len() == 7);
    assert("phpmyadmin"@ != "mailhog"@);
    reveal_strlit("mailpit");
    assert("mailpit"@.len() == 7);
    assert("phpmyadmin"@ != "mailpit"@);
    reveal_strlit("adminer");
    assert("adminer"@.len() == 7);
    assert("phpmyadmin"@ != "adminer"@);
    reveal_strlit("pgadmin");
    assert("pgadmin"@.len() == 7);
    assert("phpmyadmin"@ != "pgadmin"@);
}

proof fn lemma_compose_key_38()
    ensures
        compose_display("s3"@) == Some("S3 (MinIO)"@),
{
    reveal_strlit("s3");
    assert("s3"@.len() == 2);
    reveal_strlit("db");
    assert("s3"@[0] != "db"@[0]);
    assert("s3"@ != "db"@);
    reveal_strlit("database");
    assert("database"@.len() == 8);
    assert("s3"@ != "database"@);
    reveal_strlit("postgres");
    assert("postgres"@.len() == 8);
    assert("s3"@ != "postgres"@);
    reveal_strlit("mysql");
    assert("mysql"@.len() == 5);
    assert("s3"@ != "mysql"@);
    reveal_strlit("mariadb");
    assert("mariadb"@.len() == 7);
    assert("s3"@ != "mariadb"@);
    reveal_strlit("mongodb");
    assert("mongodb"@.len() == 7);
    assert("s3"@ != "mongodb"@);
    reveal_strlit("mongo");
    assert("mongo"@.len() == 5);
    assert("s3"@ != "mongo"@);
    reveal_strlit("redis");
    assert("redis"@.len() == 5);
    assert("s3"@ != "redis"@);
    reveal_strlit("cache");
    assert("cache"@.len() == 5);
    assert("s3"@ != "cache"@);
    reveal_strlit("memcached");
    assert("memcached"@.len() == 9);
    assert("s3"@ != "memcached"@);
    reveal_strlit("mq");
    assert("s3"@[0] != "mq"@[0]);
    assert("s3"@ != "mq"@);
    reveal_strlit("rabbitmq");
    assert("rabbitmq"@.len() == 8);
    assert("s3"@ != "rabbitmq"@);
    reveal_strlit("kafka");
    assert("kafka"@.len() == 5);
    assert("s3"@ != "kafka"@);
    reveal_strlit("zookeeper");
    assert("zookeeper"@.len() == 9);
    assert("s3"@ != "zookeeper"@);
    reveal_strlit("redpanda");
    assert("redpanda"@.len() == 8);
    assert("s3"@ != "redpanda"@);
    reveal_strlit("nats");
    assert("nats"@.len() == 4);
    assert("s3"@ != "nats"@);
    reveal_strlit("elasticsearch");
    assert("elasticsearch"@.len() == 13);
    assert("s3"@ != "elasticsearch"@);
    reveal_strlit("es");
    assert("s3"@[0] != "es"@[0]);
    assert("s3"@ != "es"@);
    reveal_strlit("minio");
    assert("minio"@.len() == 5);
    assert("s3"@ != "minio"@);
    reveal_strlit("prometheus");
    assert("prometheus"@.len() == 10);
    assert("s3"@ != "prometheus"@);
    reveal_strlit("grafana");
    assert("grafana"@.len() == 7);
    assert("s3"@ != "grafana"@);
    reveal_strlit("alertmanager");
    assert("alertmanager"@.len() == 12);
    assert("s3"@ != "alertmanager"@);
    reveal_strlit("loki");
    assert("loki"@.len() == 4);
    assert("s3"@ != "loki"@);
    reveal_strlit("tempo");
    assert("tempo"@.len() == 5);
    assert("s3"@ != "tempo"@);
    reveal_strlit("nginx");
    assert("nginx"@.len() == 5);
    assert("s3"@ != "nginx"@);
    reveal_strlit("traefik");
    assert("traefik"@.len() == 7);
    assert("s3"@ != "traefik"@);
    reveal_strlit("caddy");
    assert("caddy"@.len() == 5);
    assert("s3"@ != "caddy"@);
    reveal_strlit("vault");
    assert("vault"@.len() == 5);
    assert("s3"@ != "vault"@);
    reveal_strlit("consul");
    assert("consul"@.len() == 6);
    assert("s3"@ != "consul"@);
    reveal_strlit("keycloak");
    assert("keycloak"@.len() == 8);
    assert("s3"@ != "keycloak"@);
    reveal_strlit("solr");
    assert("solr"@.len() == 4);
    assert("s3"@ != "solr"@);
    reveal_strlit("cassandra");
    assert("cassandra"@.len() == 9);
    assert("s3"@ != "cassandra"@);
    reveal_strlit("clickhouse");
    assert("clickhouse"@.len() == 10);
    assert("s3"@ != "clickhouse"@);
    reveal_strlit("mailhog");
    assert("mailhog"@.len() == 7);
    assert("s3"@ != "mailhog"@);
    reveal_strlit("mailpit");
    assert("mailpit"@.len() == 7);
    assert("s3"@ != "mailpit"@);
    reveal_strlit("adminer");
    assert("adminer"@.len() == 7);
    assert("s3"@ != "adminer"@);
    reveal_strlit("pgadmin");
    assert("pgadmin"@.len() == 7);
    assert("s3"@ != "pgadmin"@);
    reveal_strlit("phpmyadmin");
    assert("phpmyadmin"@.len() == 10);
    assert("s3"@ != "phpmyadmin"@);
}

proof fn lemma_compose_key_39()
    ensures
        compose_display("storage"@) == Some("Storage"@),
{
    reveal_strlit("storage");
    assert("storage"@.len() == 7);
    reveal_strlit("db");
    assert("db"@.len() == 2);
    assert("storage"@ != "db"@);
    reveal_strlit("database");
    assert("database"@.len() == 8);
    assert("storage"@ != "database"@);
    reveal_strlit("postgres");
    assert("postgres"@.len() == 8);
    assert("storage"@ != "postgres"@);
    reveal_strlit("mysql");
    assert("mysql"@.len() == 5);
    assert("storage"@ != "mysql"@);
    reveal_strlit("mariadb");
    assert("storage"@[0] != "mariadb"@[0]);
    assert("storage"@ != "mariadb"@);
    reveal_strlit("mongodb");
    assert("storage"@[0] != "mongodb"@[0]);
    assert("storage"@ != "mongodb"@);
    reveal_strlit("mongo");
    assert("mongo"@.len() == 5);
    assert("storage"@ != "mongo"@);
    reveal_strlit("redis");
    assert("redis"@.len() == 5);
    assert("storage"@ != "redis"@);
    reveal_strlit("cache");
    assert("cache"@.len() == 5);
    assert("storage"@ != "cache"@);
    reveal_strlit("memcached");
    assert("memcached"@.len() == 9);
    assert("storage"@ != "memcached"@);
    reveal_strlit("mq");
    assert("mq"@.len() == 2);
    assert("storage"@ != "mq"@);
    reveal_strlit("rabbitmq");
    assert("rabbitmq"@.len() == 8);
    assert("storage"@ != "rabbitmq"@);
    reveal_strlit("kafka");
    assert("kafka"@.len() == 5);
    assert("storage"@ != "kafka"@);
    reveal_strlit("zookeeper");
    assert("zookeeper"@.len() == 9);
    assert("storage"@ != "zookeeper"@);
    reveal_strlit("redpanda");
    assert("redpanda"@.len() == 8);
    assert("storage"@ != "redpanda"@);
    reveal_strlit("nats");
    assert("nats"@.len() == 4);
    assert("storage"@ != "nats"@);
    reveal_strlit("elasticsearch");
    assert("elasticsearch"@.len() == 13);
    assert("storage"@ != "elasticsearch"@);
    reveal_strlit("es");
    assert("es"@.len() == 2);
    assert("storage"@ != "es"@);
    reveal_strlit("minio");
    assert("minio"@.len() == 5);
    assert("storage"@ != "minio"@);
    reveal_strlit("prometheus");
    assert("prometheus"@.len() == 10);
    assert("storage"@ != "prometheus"@);
    reveal_strlit("grafana");
    assert("storage"@[0] != "grafana"@[0]);
    assert("storage"@ != "grafana"@);
    reveal_strlit("alertmanager");
    assert("alertmanager"@.len() == 12);
    assert("storage"@ != "alertmanager"@);
    reveal_strlit("loki");
    assert("loki"@.len() == 4);
    assert("storage"@ != "loki"@);
    reveal_strlit("tempo");
    assert("tempo"@.len() == 5);
    assert("storage"@ != "tempo"@);
    reveal_strlit("nginx");
    assert("nginx"@.len() == 5);
    assert("storage"@ != "nginx"@);
    reveal_strlit("traefik");
    assert("storage"@[0] != "traefik"@[0]);
    assert("storage"@ != "traefik"@);
    reveal_strlit("caddy");
    assert("caddy"@.len() == 5);
    assert("storage"@ != "caddy"@);
    reveal_strlit("vault");
    assert("vault"@.len() == 5);
    assert("storage"@ != "vault"@);
    reveal_strlit("consul");
    assert("consul"@.len() == 6);
    assert("storage"@ != "consul"@);
    reveal_strlit("keycloak");
    assert("keycloak"@.len() == 8);
    assert("storage"@ != "keycloak"@);
    reveal_strlit("solr");
    assert("solr"@.len() == 4);
    assert("storage"@ != "solr"@);
    reveal_strlit("cassandra");
    assert("cassandra"@.len() == 9);
    assert("storage"@ != "cassandra"@);
    reveal_strlit("clickhouse");
    assert("clickhouse"@.len() == 10);
    assert("storage"@ != "clickhouse"@);
    reveal_strlit("mailhog");
    assert("storage"@[0] != "mailhog"@[0]);
    assert("storage"@ != "mailhog"@);
    reveal_strlit("mailpit");
    assert("storage"@[0] != "mailpit"@[0]);
    assert("storage"@ != "mailpit"@);
    reveal_strlit("adminer");
    assert("storage"@[0] != "adminer"@[0]);
    assert("storage"@ != "adminer"@);
    reveal_strlit("pgadmin");
    assert("storage"@[0] != "pgadmin"@[0]);
    assert("storage"@ != "pgadmin"@);
    reveal_strlit("phpmyadmin");
    assert("phpmyadmin"@.len() == 10);
    assert("storage"@ != "phpmyadmin"@);
    reveal_strlit("s3");
    assert("s3"@.len() == 2);
    assert("storage"@ != "s3"@);
}

/// Every key of the known table is recognized, under its display name; no
/// other key is.
pub proof fn lemma_compose_table(key: Seq<char>)
    ensures
        forall|i: int| 0 <= i < compose_table().len() ==> compose_display(#[trigger] compose_table()[i].0) == Some(
            compose_table()[i].1,
        ),
        compose_display(key) is Some ==> exists|i: int| 0 <= i < compose_table().len() && #[trigger] compose_table()[i].0 == key,
        compose_display("db"@) == Some("Database"@),
        compose_display("database"@) == Some("Database"@),
        compose_display("postgres"@) == Some("Database"@),
        compose_display("mysql"@) == Some("Database"@),
        compose_display("mariadb"@) == Some("Database"@),
        compose_display("mongodb"@) == Some("MongoDB"@),
        compose_display("mongo"@) == Some("MongoDB"@),
        compose_display("redis"@) == Some("Redis"@),
        compose_display("cache"@) == Some("Cache"@),
        compose_display("memcached"@) == Some("Cache"@),
        compose_display("mq"@) == Some("Message Queue"@),
        compose_display("rabbitmq"@) == Some("RabbitMQ"@),
        compose_display("kafka"@) == Some("Kafka"@),
        compose_display("zookeeper"@) == Some("ZooKeeper"@),
        compose_display("redpanda"@) == Some("Redpanda"@),
        compose_display("nats"@) == Some("NATS"@),
        compose_display("elasticsearch"@) == Some("Elasticsearch"@),
        compose_display("es"@) == Some("Elasticsearch"@),
        compose_display("minio"@) == Some("MinIO"@),
        compose_display("prometheus"@) == Some("Prometheus"@),
        compose_display("grafana"@) == Some("Grafana"@),
        compose_display("alertmanager"@) == Some("Alertmanager"@),
        compose_display("loki"@) == Some("Loki"@),
        compose_display("tempo"@) == Some("Tempo"@),
        compose_display("nginx"@) == Some("Nginx"@),
        compose_display("traefik"@) == Some("Traefik"@),
        compose_display("caddy"@) == Some("Caddy"@),
        compose_display("vault"@) == Some("Vault"@),
        compose_display("consul"@) == Some("Consul"@),
        compose_display("keycloak"@) == Some("Keycloak"@),
        compose_display("solr"@) == Some("Solr"@),
        compose_display("cassandra"@) == Some("Cassandra"@),
        compose_display("clickhouse"@) == Some("ClickHouse"@),
        compose_display("mailhog"@) == Some("MailHog"@),
        compose_display("mailpit"@) == Some("Mailpit"@),
        compose_display("adminer"@) == Some("Adminer"@),
        compose_display("pgadmin"@) == Some("pgAdmin"@),
        compose_display("phpmyadmin"@) == Some("phpMyAdmin"@),
        compose_display("s3"@) == Some("S3 (MinIO)"@),
        compose_display("storage"@) == Some("Storage"@),
{
    lemma_compose_key_0();
    lemma_compose_key_1();
    lemma_compose_key_2();
    lemma_compose_key_3();
    lemma_compose_key_4();
    lemma_compose_key_5();
    lemma_compose_key_6();
    lemma_compose_key_7();
    lemma_compose_key_8();
    lemma_compose_key_9();
    lemma_compose_key_10();
    lemma_compose_key_11();
    lemma_compose_key_12();
    lemma_compose_key_13();
    lemma_compose_key_14();
    lemma_compose_key_15();
    lemma_compose_key_16();
    lemma_compose_key_17();
    lemma_compose_key_18();
    lemma_compose_key_19();
    lemma_compose_key_20();
    lemma_compose_key_21();
    lemma_compose_key_22();
    lemma_compose_key_23();
    lemma_compose_key_24();
    lemma_compose_key_25();
    lemma_compose_key_26();
    lemma_compose_key_27();
    lemma_compose_key_28();
    lemma_compose_key_29();
    lemma_compose_key_30();
    lemma_compose_key_31();
    lemma_compose_key_32();
    lemma_compose_key_33();
    lemma_compose_key_34();
    lemma_compose_key_35();
    lemma_compose_key_36();
    lemma_compose_key_37();
    lemma_compose_key_38();
    lemma_compose_key_39();
    let t = compose_table();
    assert forall|i: int| 0 <= i < t.len() implies compose_display(#[trigger] t[i].0) == Some(t[i].1) by {
        if i == 0 {
            assert(t[i] == ("db"@, "Database"@));
        }
        if i == 1 {
            assert(t[i] == ("database"@, "Database"@));
        }
        if i == 2 {
            assert(t[i] == ("postgres"@, "Database"@));
        }
        if i == 3 {
            assert(t[i] == ("mysql"@, "Database"@));
        }
        if i == 4 {
            assert(t[i] == ("mariadb"@, "Database"@));
        }
        if i == 5 {
            assert(t[i] == ("mongodb"@, "MongoDB"@));
        }
        if i == 6 {
            assert(t[i] == ("mongo"@, "MongoDB"@));
        }
        if i == 7 {
            assert(t[i] == ("redis"@, "Redis"@));
        }
        if i == 8 {
            assert(t[i] == ("cache"@, "Cache"@));
        }
        if i == 9 {
            assert(t[i] == ("memcached"@, "Cache"@));
        }
        if i == 10 {
            assert(t[i] == ("mq"@, "Message Queue"@));
        }
        if i == 11 {
            assert(t[i] == ("rabbitmq"@, "RabbitMQ"@));
        }
        if i == 12 {
            assert(t[i] == ("kafka"@, "Kafka"@));
        }
        if i == 13 {
            assert(t[i] == ("zookeeper"@, "ZooKeeper"@));
        }
        if i == 14 {
            assert(t[i] == ("redpanda"@, "Redpanda"@));
        }
        if i == 15 {
            assert(t[i] == ("nats"@, "NATS"@));
        }
        if i == 16 {
            assert(t[i] == ("elasticsearch"@, "Elasticsearch"@));
        }
        if i == 17 {
            assert(t[i] == ("es"@, "Elasticsearch"@));
        }
        if i == 18 {
            assert(t[i] == ("minio"@, "MinIO"@));
        }
        if i == 19 {
            assert(t[i] == ("prometheus"@, "Prometheus"@));
        }
        if i == 20 {
            assert(t[i] == ("grafana"@, "Grafana"@));
        }
        if i == 21 {
            assert(t[i] == ("alertmanager"@, "Alertmanager"@));
        }
        if i == 22 {
            assert(t[i] == ("loki"@, "Loki"@));
        }
        if i == 23 {
            assert(t[i] == ("tempo"@, "Tempo"@));
        }
        if i == 24 {
            assert(t[i] == ("nginx"@, "Nginx"@));
        }
        if i == 25 {
            assert(t[i] == ("traefik"@, "Traefik"@));
        }
        if i == 26 {
            assert(t[i] == ("caddy"@, "Caddy"@));
        }
        if i == 27 {
            assert(t[i] == ("vault"@, "Vault"@));
        }
        if i == 28 {
            assert(t[i] == ("consul"@, "Consul"@));
        }
        if i == 29 {
            assert(t[i] == ("keycloak"@, "Keycloak"@));
        }
        if i == 30 {
            assert(t[i] == ("solr"@, "Solr"@));
        }
        if i == 31 {
            assert(t[i] == ("cassandra"@, "Cassandra"@));
        }
        if i == 32 {
            assert(t[i] == ("clickhouse"@, "ClickHouse"@));
        }
        if i == 33 {
            assert(t[i] == ("mailhog"@, "MailHog"@));
        }
        if i == 34 {
            assert(t[i] == ("mailpit"@, "Mailpit"@));
        }
        if i == 35 {
            assert(t[i] == ("adminer"@, "Adminer"@));
        }
        if i == 36 {
            assert(t[i] == ("pgadmin"@, "pgAdmin"@));
        }
        if i == 37 {
            assert(t[i] == ("phpmyadmin"@, "phpMyAdmin"@));
        }
        if i == 38 {
            assert(t[i] == ("s3"@, "S3 (MinIO)"@));
        }
        if i == 39 {
            assert(t[i] == ("storage"@, "Storage"@));
        }
    }
    if compose_display(key) is Some {
        if key == "db"@ {
            assert(t[0].0 == key);
        }
        if key == "database"@ {
            assert(t[1].0 == key);
        }
        if key == "postgres"@ {
            assert(t[2].0 == key);
        }
        if key == "mysql"@ {
            assert(t[3].0 == key);
        }
        if key == "mariadb"@ {
            assert(t[4].0 == key);
        }
        if key == "mongodb"@ {
            assert(t[5].0 == key);
        }
        if key == "mongo"@ {
            assert(t[6].0 == key);
        }
        if key == "redis"@ {
            assert(t[7].0 == key);
        }
        if key == "cache"@ {
            assert(t[8].0 == key);
        }
        if key == "memcached"@ {
            assert(t[9].0 == key);
        }
        if key == "mq"@ {
            assert(t[10].0 == key);
        }
        if key == "rabbitmq"@ {
            assert(t[11].0 == key);
        }
        if key == "kafka"@ {
            assert(t[12].0 == key);
        }
        if key == "zookeeper"@ {
            assert(t[13].0 == key);
        }
        if key == "redpanda"@ {
            assert(t[14].0 == key);
        }
        if key == "nats"@ {
            assert(t[15].0 == key);
        }
        if key == "elasticsearch"@ {
            assert(t[16].0 == key);
        }
        if key == "es"@ {
            assert(t[17].0 == key);
        }
        if key == "minio"@ {
            assert(t[18].0 == key);
        }
        if key == "prometheus"@ {
            assert(t[19].0 == key);
        }
        if key == "grafana"@ {
            assert(t[20].0 == key);
        }
        if key == "alertmanager"@ {
            assert(t[21].0 == key);
        }
        if key == "loki"@ {
            assert(t[22].0 == key);
        }
        if key == "tempo"@ {
            assert(t[23].0 == key);
        }
        if key == "nginx"@ {
            assert(t[24].0 == key);
        }
        if key == "traefik"@ {
            assert(t[25].0 == key);
        }
        if key == "caddy"@ {
            assert(t[26].0 == key);
        }
        if key == "vault"@ {
            assert(t[27].0 == key);
        }
        if key == "consul"@ {
            assert(t[28].0 == key);
        }
        if key == "keycloak"@ {
            assert(t[29].0 == key);
        }
        if key == "solr"@ {
            assert(t[30].0 == key);
        }
        if key == "cassandra"@ {
            assert(t[31].0 == key);
        }
        if key == "clickhouse"@ {
            assert(t[32].0 == key);
        }
        if key == "mailhog"@ {
            assert(t[33].0 == key);
        }
        if key == "mailpit"@ {
            assert(t[34].0 == key);
        }
        if key == "adminer"@ {
            assert(t[35].0 == key);
        }
        if key == "pgadmin"@ {
            assert(t[36].0 == key);
        }
        if key == "phpmyadmin"@ {
            assert(t[37].0 == key);
        }
        if key == "s3"@ {
            assert(t[38].0 == key);
        }
        if key == "storage"@ {
            assert(t[39].0 == key);
        }
    }
}

} // verus!

verus! {

/// The directory holds a readable `package.json` with a `dev`, `develop` or
/// `start` script.
pub open spec fn node_scripts(p: DirProbe) -> bool {
    probe_text(p, "package.json"@) matches Some(c) && probe_has(p, "package.json"@) && (has_sub(c, "\"dev\""@)
        || has_sub(c, "\"develop\""@) || has_sub(c, "\"start\""@))
}

/// The lockfile picks the Node package manager: `bun.lockb` before
/// `pnpm-lock.yaml` before `yarn.lock`, else npm.
pub proof fn lemma_package_manager_by_lockfile(p: DirProbe)
    ensures
        probe_has(p, "bun.lockb"@) ==> package_manager_spec(p) == "bun"@,
        !probe_has(p, "bun.lockb"@) && probe_has(p, "pnpm-lock.yaml"@) ==> package_manager_spec(p) == "pnpm"@,
        !probe_has(p, "bun.lockb"@) && !probe_has(p, "pnpm-lock.yaml"@) && probe_has(p, "yarn.lock"@)
            ==> package_manager_spec(p) == "yarn"@,
        !probe_has(p, "bun.lockb"@) && !probe_has(p, "pnpm-lock.yaml"@) && !probe_has(p, "yarn.lock"@)
            ==> package_manager_spec(p) == "npm"@,
{
}

/// The primary dev command of a directory, row by row: a Node project with
/// scripts comes first (by framework and lockfile); otherwise the first
/// marker file present, in the order Cargo, Go, Maven, Gradle (either build
/// file), Django, pyproject, requirements, Rails, Phoenix, PHP, .NET,
/// `main.py` (by framework), Node entry files, `Makefile` (by target); a
/// directory with none of them has no primary command.
pub proof fn lemma_primary_table(p: DirProbe, python: Seq<char>)
    ensures
        (probe_text(p, "package.json"@) matches Some(c) && probe_has(p, "package.json"@) && (has_sub(c, "\"dev\""@) || has_sub(c, "\"develop\""@)) && (has_sub(c, "\"next\""@) || has_sub(c, "\"vite\""@))) ==> primary_cmd(p, python) == Some(package_manager_spec(p) + " run dev"@),
        (probe_text(p, "package.json"@) matches Some(c) && probe_has(p, "package.json"@) && (has_sub(c, "\"dev\""@) || has_sub(c, "\"develop\""@)) && !has_sub(c, "\"next\""@) && !has_sub(c, "\"vite\""@) && has_sub(c, "\"react-scripts\""@)) ==> primary_cmd(p, python) == Some(package_manager_spec(p) + " start"@),
        (probe_text(p, "package.json"@) matches Some(c) && probe_has(p, "package.json"@) && (has_sub(c, "\"dev\""@) || has_sub(c, "\"develop\""@)) && !has_sub(c, "\"next\""@) && !has_sub(c, "\"vite\""@) && !has_sub(c, "\"react-scripts\""@) && (has_sub(c, "\"vue\""@) || has_sub(c, "\"@vue\""@))) ==> primary_cmd(p, python) == Some(package_manager_spec(p) + " run dev"@),
        (probe_text(p, "package.json"@) matches Some(c) && probe_has(p, "package.json"@) && (has_sub(c, "\"dev\""@) || has_sub(c, "\"develop\""@)) && !has_sub(c, "\"next\""@) && !has_sub(c, "\"vite\""@) && !has_sub(c, "\"react-scripts\""@) && !has_sub(c, "\"vue\""@) && !has_sub(c, "\"@vue\""@) && (has_sub(c, "\"@angular\""@) || has_sub(c, "\"@angular/"@) || has_sub(c, "\"angular\""@))) ==> primary_cmd(p, python) == Some("ng serve"@),
        (probe_text(p, "package.json"@) matches Some(c) && probe_has(p, "package.json"@) && (has_sub(c, "\"dev\""@) || has_sub(c, "\"develop\""@)) && !has_sub(c, "\"next\""@) && !has_sub(c, "\"vite\""@) && !has_sub(c, "\"react-scripts\""@) && !has_sub(c, "\"vue\""@) && !has_sub(c, "\"@vue\""@) && !has_sub(c, "\"@angular\""@) && !has_sub(c, "\"@angular/"@) && !has_sub(c, "\"angular\""@)) ==> primary_cmd(p, python) == Some(package_manager_spec(p) + " run dev"@),
        (probe_text(p, "package.json"@) matches Some(c) && probe_has(p, "package.json"@) && !has_sub(c, "\"dev\""@) && !has_sub(c, "\"develop\""@) && has_sub(c, "\"start\""@)) ==> primary_cmd(p, python) == Some(package_manager_spec(p) + " start"@),
        (!node_scripts(p) && probe_has(p, "Cargo.toml"@)) ==> primary_cmd(p, python) == Some("cargo run"@),
        (!node_scripts(p) && !probe_has(p, "Cargo.toml"@) && probe_has(p, "go.mod"@)) ==> primary_cmd(p, python) == Some("go run ."@),
        (!node_scripts(p) && !probe_has(p, "Cargo.toml"@) && !probe_has(p, "go.mod"@) && probe_has(p, "pom.xml"@)) ==> primary_cmd(p, python) == Some("mvn spring-boot:run"@),
        (!node_scripts(p) && !probe_has(p, "Cargo.toml"@) && !probe_has(p, "go.mod"@) && !probe_has(p, "pom.xml"@) && probe_has(p, "build.gradle"@)) ==> primary_cmd(p, python) == Some("gradle bootRun"@),
        (!node_scripts(p) && !probe_has(p, "Cargo.toml"@) && !probe_has(p, "go.mod"@) && !probe_has(p, "pom.xml"@) && probe_has(p, "build.gradle.kts"@)) ==> primary_cmd(p, python) == Some("gradle bootRun"@),
        (!node_scripts(p) && !probe_has(p, "Cargo.toml"@) && !probe_has(p, "go.mod"@) && !probe_has(p, "pom.xml"@) && !probe_has(p, "build.gradle"@) && !probe_has(p, "build.gradle.kts"@) && probe_has(p, "manage.py"@)) ==> primary_cmd(p, python) == Some(python + " manage.py runserver"@),
        (!node_scripts(p) && !probe_has(p, "Cargo.toml"@) && !probe_has(p, "go.mod"@) && !probe_has(p, "pom.xml"@) && !probe_has(p, "build.gradle"@) && !probe_has(p, "build.gradle.kts"@) && !probe_has(p, "manage.py"@) && probe_has(p, "pyproject.toml"@)) ==> primary_cmd(p, python) == Some("uv run"@),
        (!node_scripts(p) && !probe_has(p, "Cargo.toml"@) && !probe_has(p, "go.mod"@) && !probe_has(p, "pom.xml"@) && !probe_has(p, "build.gradle"@) && !probe_has(p, "build.gradle.kts"@) && !probe_has(p, "manage.py"@) && !probe_has(p, "pyproject.toml"@) && probe_has(p, "requirements.txt"@)) ==> primary_cmd(p, python) == Some(python + " main.py"@),
        (!node_scripts(p) && !probe_has(p, "Cargo.toml"@) && !probe_has(p, "go.mod"@) && !probe_has(p, "pom.xml"@) && !probe_has(p, "build.gradle"@) && !probe_has(p, "build.gradle.kts"@) && !probe_has(p, "manage.py"@) && !probe_has(p, "pyproject.toml"@) && !probe_has(p, "requirements.txt"@) && probe_has(p, "Gemfile"@)) ==> primary_cmd(p, python) == Some("bundle exec rails server"@),
        (!node_scripts(p) && !probe_has(p, "Cargo.toml"@) && !probe_has(p, "go.mod"@) && !probe_has(p, "pom.xml"@) && !probe_has(p, "build.gradle"@) && !probe_has(p, "build.gradle.kts"@) && !probe_has(p, "manage.py"@) && !probe_has(p, "pyproject.toml"@) && !probe_has(p, "requirements.txt"@) && !probe_has(p, "Gemfile"@) && probe_has(p, "mix.exs"@)) ==> primary_cmd(p, python) == Some("mix phx.server"@),
        (!node_scripts(p) && !probe_has(p, "Cargo.toml"@) && !probe_has(p, "go.mod"@) && !probe_has(p, "pom.xml"@) && !probe_has(p, "build.gradle"@) && !probe_has(p, "build.gradle.kts"@) && !probe_has(p, "manage.py"@) && !probe_has(p, "pyproject.toml"@) && !probe_has(p, "requirements.txt"@) && !probe_has(p, "Gemfile"@) && !probe_has(p, "mix.exs"@) && probe_has(p, "composer.json"@) && probe_has(p, "artisan"@)) ==> primary_cmd(p, python) == Some("php artisan serve"@),
        (!node_scripts(p) && !probe_has(p, "Cargo.toml"@) && !probe_has(p, "go.mod"@) && !probe_has(p, "pom.xml"@) && !probe_has(p, "build.gradle"@) && !probe_has(p, "build.gradle.kts"@) && !probe_has(p, "manage.py"@) && !probe_has(p, "pyproject.toml"@) && !probe_has(p, "requirements.txt"@) && !probe_has(p, "Gemfile"@) && !probe_has(p, "mix.exs"@) && probe_has(p, "composer.json"@) && !probe_has(p, "artisan"@)) ==> primary_cmd(p, python) == Some("php -S localhost:8000"@),
        (!node_scripts(p) && !probe_has(p, "Cargo.toml"@) && !probe_has(p, "go.mod"@) && !probe_has(p, "pom.xml"@) && !probe_has(p, "build.gradle"@) && !probe_has(p, "build.gradle.kts"@) && !probe_has(p, "manage.py"@) && !probe_has(p, "pyproject.toml"@) && !probe_has(p, "requirements.txt"@) && !probe_has(p, "Gemfile"@) && !probe_has(p, "mix.exs"@) && !probe_has(p, "composer.json"@) && probe_has(p, "Program.cs"@)) ==> primary_cmd(p, python) == Some("dotnet run"@),
        (!node_scripts(p) && !probe_has(p, "Cargo.toml"@) && !probe_has(p, "go.mod"@) && !probe_has(p, "pom.xml"@) && !probe_has(p, "build.gradle"@) && !probe_has(p, "build.gradle.kts"@) && !probe_has(p, "manage.py"@) && !probe_has(p, "pyproject.toml"@) && !probe_has(p, "requirements.txt"@) && !probe_has(p, "Gemfile"@) && !probe_has(p, "mix.exs"@) && !probe_has(p, "composer.json"@) && probe_has(p, "Program.fs"@)) ==> primary_cmd(p, python) == Some("dotnet run"@),
        (!node_scripts(p) && !probe_has(p, "Cargo.toml"@) && !probe_has(p, "go.mod"@) && !probe_has(p, "pom.xml"@) && !probe_has(p, "build.gradle"@) && !probe_has(p, "build.gradle.kts"@) && !probe_has(p, "manage.py"@) && !probe_has(p, "pyproject.toml"@) && !probe_has(p, "requirements.txt"@) && !probe_has(p, "Gemfile"@) && !probe_has(p, "mix.exs"@) && !probe_has(p, "composer.json"@) && !probe_has(p, "Program.cs"@) && !probe_has(p, "Program.fs"@) && probe_has(p, "main.py"@) && probe_text(p, "main.py"@) is None) ==> primary_cmd(p, python) == Some(python + " main.py"@),
        (probe_text(p, "main.py"@) matches Some(c) && !node_scripts(p) && !probe_has(p, "Cargo.toml"@) && !probe_has(p, "go.mod"@) && !probe_has(p, "pom.xml"@) && !probe_has(p, "build.gradle"@) && !probe_has(p, "build.gradle.kts"@) && !probe_has(p, "manage.py"@) && !probe_has(p, "pyproject.toml"@) && !probe_has(p, "requirements.txt"@) && !probe_has(p, "Gemfile"@) && !probe_has(p, "mix.exs"@) && !probe_has(p, "composer.json"@) && !probe_has(p, "Program.cs"@) && !probe_has(p, "Program.fs"@) && probe_has(p, "main.py"@) && (has_sub(c, "FastAPI"@) || has_sub(c, "uvicorn"@))) ==> primary_cmd(p, python) == Some("uvicorn main:app --reload"@),
        (probe_text(p, "main.py"@) matches Some(c) && !node_scripts(p) && !probe_has(p, "Cargo.toml"@) && !probe_has(p, "go.mod"@) && !probe_has(p, "pom.xml"@) && !probe_has(p, "build.gradle"@) && !probe_has(p, "build.gradle.kts"@) && !probe_has(p, "manage.py"@) && !probe_has(p, "pyproject.toml"@) && !probe_has(p, "requirements.txt"@) && !probe_has(p, "Gemfile"@) && !probe_has(p, "mix.exs"@) && !probe_has(p, "composer.json"@) && !probe_has(p, "Program.cs"@) && !probe_has(p, "Program.fs"@) && probe_has(p, "main.py"@) && !has_sub(c, "FastAPI"@) && !has_sub(c, "uvicorn"@) && (has_sub(c, "flask"@) || has_sub(c, "Flask"@))) ==> primary_cmd(p, python) == Some("flask run"@),
        (probe_text(p, "main.py"@) matches Some(c) && !node_scripts(p) && !probe_has(p, "Cargo.toml"@) && !probe_has(p, "go.mod"@) && !probe_has(p, "pom.xml"@) && !probe_has(p, "build.gradle"@) && !probe_has(p, "build.gradle.kts"@) && !probe_has(p, "manage.py"@) && !probe_has(p, "pyproject.toml"@) && !probe_has(p, "requirements.txt"@) && !probe_has(p, "Gemfile"@) && !probe_has(p, "mix.exs"@) && !probe_has(p, "composer.json"@) && !probe_has(p, "Program.cs"@) && !probe_has(p, "Program.fs"@) && probe_has(p, "main.py"@) && !has_sub(c, "FastAPI"@) && !has_sub(c, "uvicorn"@) && !has_sub(c, "flask"@) && !has_sub(c, "Flask"@)) ==> primary_cmd(p, python) == Some(python + " main.py"@),
        (!node_scripts(p) && !probe_has(p, "Cargo.toml"@) && !probe_has(p, "go.mod"@) && !probe_has(p, "pom.xml"@) && !probe_has(p, "build.gradle"@) && !probe_has(p, "build.gradle.kts"@) && !probe_has(p, "manage.py"@) && !probe_has(p, "pyproject.toml"@) && !probe_has(p, "requirements.txt"@) && !probe_has(p, "Gemfile"@) && !probe_has(p, "mix.exs"@) && !probe_has(p, "composer.json"@) && !probe_has(p, "Program.cs"@) && !probe_has(p, "Program.fs"@) && !probe_has(p, "main.py"@) && probe_has(p, "index.js"@)) ==> primary_cmd(p, python) == Some("node index.js"@),
        (!node_scripts(p) && !probe_has(p, "Cargo.toml"@) && !probe_has(p, "go.mod"@) && !probe_has(p, "pom.xml"@) && !probe_has(p, "build.gradle"@) && !probe_has(p, "build.gradle.kts"@) && !probe_has(p, "manage.py"@) && !probe_has(p, "pyproject.toml"@) && !probe_has(p, "requirements.txt"@) && !probe_has(p, "Gemfile"@) && !probe_has(p, "mix.exs"@) && !probe_has(p, "composer.json"@) && !probe_has(p, "Program.cs"@) && !probe_has(p, "Program.fs"@) && !probe_has(p, "main.py"@) && probe_has(p, "index.ts"@)) ==> primary_cmd(p, python) == Some("node index.js"@),
        (!node_scripts(p) && !probe_has(p, "Cargo.toml"@) && !probe_has(p, "go.mod"@) && !probe_has(p, "pom.xml"@) && !probe_has(p, "build.gradle"@) && !probe_has(p, "build.gradle.kts"@) && !probe_has(p, "manage.py"@) && !probe_has(p, "pyproject.toml"@) && !probe_has(p, "requirements.txt"@) && !probe_has(p, "Gemfile"@) && !probe_has(p, "mix.exs"@) && !probe_has(p, "composer.json"@) && !probe_has(p, "Program.cs"@) && !probe_has(p, "Program.fs"@) && !probe_has(p, "main.py"@) && !probe_has(p, "index.js"@) && !probe_has(p, "index.ts"@) && probe_has(p, "server.js"@)) ==> primary_cmd(p, python) == Some("node server.js"@),
        (!node_scripts(p) && !probe_has(p, "Cargo.toml"@) && !probe_has(p, "go.mod"@) && !probe_has(p, "pom.xml"@) && !probe_has(p, "build.gradle"@) && !probe_has(p, "build.gradle.kts"@) && !probe_has(p, "manage.py"@) && !probe_has(p, "pyproject.toml"@) && !probe_has(p, "requirements.txt"@) && !probe_has(p, "Gemfile"@) && !probe_has(p, "mix.exs"@) && !probe_has(p, "composer.json"@) && !probe_has(p, "Program.cs"@) && !probe_has(p, "Program.fs"@) && !probe_has(p, "main.py"@) && !probe_has(p, "index.js"@) && !probe_has(p, "index.ts"@) && !probe_has(p, "server.js"@) && probe_has(p, "Makefile"@) && probe_text(p, "Makefile"@) is None) ==> primary_cmd(p, python) == Some("make"@),
        (probe_text(p, "Makefile"@) matches Some(c) && !node_scripts(p) && !probe_has(p, "Cargo.toml"@) && !probe_has(p, "go.mod"@) && !probe_has(p, "pom.xml"@) && !probe_has(p, "build.gradle"@) && !probe_has(p, "build.gradle.kts"@) && !probe_has(p, "manage.py"@) && !probe_has(p, "pyproject.toml"@) && !probe_has(p, "requirements.txt"@) && !probe_has(p, "Gemfile"@) && !probe_has(p, "mix.exs"@) && !probe_has(p, "composer.json"@) && !probe_has(p, "Program.cs"@) && !probe_has(p, "Program.fs"@) && !probe_has(p, "main.py"@) && !probe_has(p, "index.js"@) && !probe_has(p, "index.ts"@) && !probe_has(p, "server.js"@) && probe_has(p, "Makefile"@) && has_sub(c, "dev:"@)) ==> primary_cmd(p, python) == Some("make dev"@),
        (probe_text(p, "Makefile"@) matches Some(c) && !node_scripts(p) && !probe_has(p, "Cargo.toml"@) && !probe_has(p, "go.mod"@) && !probe_has(p, "pom.xml"@) && !probe_has(p, "build.gradle"@) && !probe_has(p, "build.gradle.kts"@) && !probe_has(p, "manage.py"@) && !probe_has(p, "pyproject.toml"@) && !probe_has(p, "requirements.txt"@) && !probe_has(p, "Gemfile"@) && !probe_has(p, "mix.exs"@) && !probe_has(p, "composer.json"@) && !probe_has(p, "Program.cs"@) && !probe_has(p, "Program.fs"@) && !probe_has(p, "main.py"@) && !probe_has(p, "index.js"@) && !probe_has(p, "index.ts"@) && !probe_has(p, "server.js"@) && probe_has(p, "Makefile"@) && !has_sub(c, "dev:"@) && has_sub(c, "run:"@)) ==> primary_cmd(p, python) == Some("make run"@),
        (probe_text(p, "Makefile"@) matches Some(c) && !node_scripts(p) && !probe_has(p, "Cargo.toml"@) && !probe_has(p, "go.mod"@) && !probe_has(p, "pom.xml"@) && !probe_has(p, "build.gradle"@) && !probe_has(p, "build.gradle.kts"@) && !probe_has(p, "manage.py"@) && !probe_has(p, "pyproject.toml"@) && !probe_has(p, "requirements.txt"@) && !probe_has(p, "Gemfile"@) && !probe_has(p, "mix.exs"@) && !probe_has(p, "composer.json"@) && !probe_has(p, "Program.cs"@) && !probe_has(p, "Program.fs"@) && !probe_has(p, "main.py"@) && !probe_has(p, "index.js"@) && !probe_has(p, "index.ts"@) && !probe_has(p, "server.js"@) && probe_has(p, "Makefile"@) && !has_sub(c, "dev:"@) && !has_sub(c, "run:"@) && has_sub(c, "start:"@)) ==> primary_cmd(p, python) == Some("make start"@),
        (probe_text(p, "Makefile"@) matches Some(c) && !node_scripts(p) && !probe_has(p, "Cargo.toml"@) && !probe_has(p, "go.mod"@) && !probe_has(p, "pom.xml"@) && !probe_has(p, "build.gradle"@) && !probe_has(p, "build.gradle.kts"@) && !probe_has(p, "manage.py"@) && !probe_has(p, "pyproject.toml"@) && !probe_has(p, "requirements.txt"@) && !probe_has(p, "Gemfile"@) && !probe_has(p, "mix.exs"@) && !probe_has(p, "composer.json"@) && !probe_has(p, "Program.cs"@) && !probe_has(p, "Program.fs"@) && !probe_has(p, "main.py"@) && !probe_has(p, "index.js"@) && !probe_has(p, "index.ts"@) && !probe_has(p, "server.js"@) && probe_has(p, "Makefile"@) && !has_sub(c, "dev:"@) && !has_sub(c, "run:"@) && !has_sub(c, "start:"@)) ==> primary_cmd(p, python) == Some("make"@),
        (!node_scripts(p) && !probe_has(p, "Cargo.toml"@) && !probe_has(p, "go.mod"@) && !probe_has(p, "pom.xml"@) && !probe_has(p, "build.gradle"@) && !probe_has(p, "build.gradle.kts"@) && !probe_has(p, "manage.py"@) && !probe_has(p, "pyproject.toml"@) && !probe_has(p, "requirements.txt"@) && !probe_has(p, "Gemfile"@) && !probe_has(p, "mix.exs"@) && !probe_has(p, "composer.json"@) && !probe_has(p, "Program.cs"@) && !probe_has(p, "Program.fs"@) && !probe_has(p, "main.py"@) && !probe_has(p, "index.js"@) && !probe_has(p, "index.ts"@) && !probe_has(p, "server.js"@) && !probe_has(p, "Makefile"@)) ==> primary_cmd(p, python) is None,
{
}

} // verus!

verus! {

/// The tooling rules, each by its marker: a `Dockerfile` gives the Docker
/// build, a `justfile` without a `Makefile` gives `just`, either Taskfile
/// gives `task dev`, a `.tf` file gives `terraform plan`, `flake.nix` gives
/// `nix develop`; and every tooling service found is one of these, with its
/// marker present.
pub proof fn lemma_tooling_rules(p: DirProbe)
    ensures
        probe_has(p, "Dockerfile"@) ==> tooling_services(p).contains(
            fresh_service("Docker Build"@, "docker build -t app ."@, None),
        ),
        probe_has(p, "justfile"@) && !probe_has(p, "Makefile"@) ==> tooling_services(p).contains(
            fresh_service("Tasks"@, "just"@, None),
        ),
        probe_has(p, "Taskfile.yml"@) || probe_has(p, "Taskfile.yaml"@) ==> tooling_services(p).contains(
            fresh_service("Tasks"@, "task dev"@, None),
        ),
        (exists|i: int|
            0 <= i < p.entries@.len() && p.entries@[i]@.len() > 3 && is_suffix(".tf"@, #[trigger] p.entries@[i]@))
            ==> tooling_services(p).contains(fresh_service("Terraform"@, "terraform plan"@, None)),
        probe_has(p, "flake.nix"@) ==> tooling_services(p).contains(fresh_service("Nix Shell"@, "nix develop"@, None)),
        tooling_services(p).len() <= 5,
        forall|i: int|
            0 <= i < tooling_services(p).len() ==> {
                let s = #[trigger] tooling_services(p)[i];
                ||| s == fresh_service("Docker Build"@, "docker build -t app ."@, None) && probe_has(p, "Dockerfile"@)
                ||| s == fresh_service("Tasks"@, "just"@, None) && probe_has(p, "justfile"@) && !probe_has(
                    p,
                    "Makefile"@,
                )
                ||| s == fresh_service("Tasks"@, "task dev"@, None) && (probe_has(p, "Taskfile.yml"@) || probe_has(
                    p,
                    "Taskfile.yaml"@,
                ))
                ||| s == fresh_service("Terraform"@, "terraform plan"@, None) && has_tf_file(p)
                ||| s == fresh_service("Nix Shell"@, "nix develop"@, None) && probe_has(p, "flake.nix"@)
            },
{
    let e = Seq::<ServiceView>::empty();
    let a = if probe_has(p, "Dockerfile"@) {
        seq![fresh_service("Docker Build"@, "docker build -t app ."@, None)]
    } else {
        e
    };
    let b = if probe_has(p, "justfile"@) && !probe_has(p, "Makefile"@) {
        seq![fresh_service("Tasks"@, "just"@, None)]
    } else {
        e
    };
    let c = if probe_has(p, "Taskfile.yml"@) || probe_has(p, "Taskfile.yaml"@) {
        seq![fresh_service("Tasks"@, "task dev"@, None)]
    } else {
        e
    };
    let d = if has_tf_file(p) {
        seq![fresh_service("Terraform"@, "terraform plan"@, None)]
    } else {
        e
    };
    let f = if probe_has(p, "flake.nix"@) {
        seq![fresh_service("Nix Shell"@, "nix develop"@, None)]
    } else {
        e
    };
    let t = tooling_services(p);
    assert(t =~= a + b + c + d + f);
    let ia = 0int;
    let ib = a.len() as int;
    let ic = ib + b.len();
    let id = ic + c.len();
    let iff = id + d.len();
    if a.len() > 0 {
        assert(t[ia] == a[0]);
    }
    if b.len() > 0 {
        assert(t[ib] == b[0]);
    }
    if c.len() > 0 {
        assert(t[ic] == c[0]);
    }
    if (exists|i: int|
        0 <= i < p.entries@.len() && p.entries@[i]@.len() > 3 && is_suffix(".tf"@, #[trigger] p.entries@[i]@)) {
        assert(has_tf_file(p));
    }
    if d.len() > 0 {
        assert(t[id] == d[0]);
    }
    if f.len() > 0 {
        assert(t[iff] == f[0]);
    }
    assert forall|i: int| 0 <= i < t.len() implies {
        let s = #[trigger] t[i];
        ||| s == fresh_service("Docker Build"@, "docker build -t app ."@, None) && probe_has(p, "Dockerfile"@)
        ||| s == fresh_service("Tasks"@, "just"@, None) && probe_has(p, "justfile"@) && !probe_has(p, "Makefile"@)
        ||| s == fresh_service("Tasks"@, "task dev"@, None) && (probe_has(p, "Taskfile.yml"@) || probe_has(
            p,
            "Taskfile.yaml"@,
        ))
        ||| s == fresh_service("Terraform"@, "terraform plan"@, None) && has_tf_file(p)
        ||| s == fresh_service("Nix Shell"@, "nix develop"@, None) && probe_has(p, "flake.nix"@)
    } by {
        if i < ib {
            assert(t[i] == a[i]);
        } else if i < ic {
            assert(t[i] == b[i - ib]);
        } else if i < id {
            assert(t[i] == c[i - ic]);
        } else if i < iff {
            assert(t[i] == d[i - id]);
        } else {
            assert(t[i] == f[i - iff]);
        }
    }
}

} // verus!

verus! {

/// Each of the files that mark a project makes a directory a project.
pub proof fn lemma_project_markers(p: DirProbe)
    ensures
        probe_has(p, "package.json"@) ==> has_project_file(p),
        probe_has(p, "Cargo.toml"@) ==> has_project_file(p),
        probe_has(p, "go.mod"@) ==> has_project_file(p),
        probe_has(p, "pom.xml"@) ==> has_project_file(p),
        probe_has(p, "build.gradle"@) ==> has_project_file(p),
        probe_has(p, "build.gradle.kts"@) ==> has_project_file(p),
        probe_has(p, "manage.py"@) ==> has_project_file(p),
        probe_has(p, "pyproject.toml"@) ==> has_project_file(p),
        probe_has(p, "requirements.txt"@) ==> has_project_file(p),
        probe_has(p, "Gemfile"@) ==> has_project_file(p),
        probe_has(p, "mix.exs"@) ==> has_project_file(p),
        probe_has(p, "composer.json"@) ==> has_project_file(p),
        probe_has(p, "Program.cs"@) ==> has_project_file(p),
        probe_has(p, "Program.fs"@) ==> has_project_file(p),
        probe_has(p, "main.py"@) ==> has_project_file(p),
        probe_has(p, "index.js"@) ==> has_project_file(p),
        probe_has(p, "index.ts"@) ==> has_project_file(p),
        probe_has(p, "server.js"@) ==> has_project_file(p),
        probe_has(p, "Makefile"@) ==> has_project_file(p),
        probe_has(p, "Dockerfile"@) ==> has_project_file(p),
        probe_has(p, "docker-compose.yml"@) ==> has_project_file(p),
        probe_has(p, "docker-compose.yaml"@) ==> has_project_file(p),
        probe_has(p, "compose.yml"@) ==> has_project_file(p),
        probe_has(p, "compose.yaml"@) ==> has_project_file(p),
        probe_has(p, "flake.nix"@) ==> has_project_file(p),
        probe_has(p, "justfile"@) ==> has_project_file(p),
        probe_has(p, "Taskfile.yml"@) ==> has_project_file(p),
        probe_has(p, "Taskfile.yaml"@) ==> has_project_file(p),
{
}

/// Subdirectory detection skips build output, caches, vendored code and
/// every hidden directory.
pub proof fn lemma_ignored_subdirs(name: Seq<char>)
    ensures
        ignored_subdir("node_modules"@),
        ignored_subdir(".git"@),
        ignored_subdir("target"@),
        ignored_subdir("dist"@),
        ignored_subdir("build"@),
        ignored_subdir(".next"@),
        ignored_subdir(".svelte-kit"@),
        ignored_subdir(".cache"@),
        ignored_subdir("vendor"@),
        ignored_subdir("__pycache__"@),
        name.len() > 0 && name[0] == '.' ==> ignored_subdir(name),
{
    reveal_strlit(".");
    assert(name.len() > 0 && name[0] == '.' ==> name.subrange(0, 1) =~= "."@);
}

} // verus!
