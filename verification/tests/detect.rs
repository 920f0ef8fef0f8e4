use rudder::detect::{
    capitalize, config_source, detect_compose, detect_primary, detect_services_for,
    detect_services_for_init, detect_subdirs, detect_tooling, has, has_any_project_file,
    is_ignored_subdir, known_compose_service, merge_services, package_manager, primary_command,
    services_from_config, ConfigEntry, DirProbe, FileContent, ProjectProbe, SubdirProbe, Toolchain,
};
use rudder::service::Service;

fn probe(entries: &[&str], files: &[(&str, &str)]) -> DirProbe {
    DirProbe {
        entries: entries.iter().map(|e| e.to_string()).collect(),
        files: files
            .iter()
            .map(|(n, c)| FileContent { name: n.to_string(), content: c.to_string() })
            .collect(),
    }
}

fn tools() -> Toolchain {
    Toolchain { python: "python3".to_string(), compose: "docker compose".to_string() }
}

fn project(root: DirProbe, subdirs: Vec<(&str, DirProbe)>) -> ProjectProbe {
    ProjectProbe {
        root,
        subdirs: subdirs
            .into_iter()
            .map(|(n, p)| SubdirProbe { name: n.to_string(), probe: p })
            .collect(),
    }
}

fn summary(v: &[Service]) -> Vec<(String, String, Option<String>)> {
    v.iter().map(|s| (s.name.clone(), s.cmd_string(), s.dir.clone())).collect()
}

fn primary(entries: &[&str], files: &[(&str, &str)]) -> Option<String> {
    primary_command(&probe(entries, files), &tools())
}

const VITE_PKG: &str = r#"{"scripts":{"dev":"vite"},"devDependencies":{"vite":"5"}}"#;

#[test]
fn node_project_with_dev_script() {
    let s = detect_primary(&probe(&["package.json"], &[("package.json", VITE_PKG)]), &tools())
        .expect("a Node service");
    assert_eq!(s.name, "Dev");
    assert_eq!(s.cmd_string(), "npm run dev");
    assert_eq!(s.id, "Dev");
}

#[test]
fn lockfile_picks_the_package_manager() {
    assert_eq!(package_manager(&probe(&["bun.lockb", "yarn.lock"], &[])), "bun");
    assert_eq!(package_manager(&probe(&["pnpm-lock.yaml"], &[])), "pnpm");
    assert_eq!(package_manager(&probe(&["yarn.lock"], &[])), "yarn");
    assert_eq!(package_manager(&probe(&[], &[])), "npm");
    assert_eq!(
        primary(&["package.json", "pnpm-lock.yaml"], &[("package.json", VITE_PKG)]).as_deref(),
        Some("pnpm run dev")
    );
}

#[test]
fn node_frameworks_pick_their_command() {
    let cra = r#"{"scripts":{"dev":"x","start":"react-scripts start"},"dependencies":{"react-scripts":"5"}}"#;
    assert_eq!(primary(&["package.json"], &[("package.json", cra)]).as_deref(), Some("npm start"));
    let ng = r#"{"scripts":{"develop":"ng serve"},"dependencies":{"@angular":"17"}}"#;
    assert_eq!(primary(&["package.json"], &[("package.json", ng)]).as_deref(), Some("ng serve"));
    let start_only = r#"{"scripts":{"start":"node index.js"}}"#;
    assert_eq!(
        primary(&["package.json", "yarn.lock"], &[("package.json", start_only)]).as_deref(),
        Some("yarn start")
    );
}

#[test]
fn package_json_without_scripts_falls_through() {
    let bare = r#"{"name":"x"}"#;
    assert_eq!(
        primary(&["package.json", "Cargo.toml"], &[("package.json", bare)]).as_deref(),
        Some("cargo run")
    );
    assert_eq!(primary(&["package.json"], &[("package.json", bare)]), None);
}

#[test]
fn node_wins_over_rust_at_one_level() {
    assert_eq!(
        primary(&["package.json", "Cargo.toml"], &[("package.json", VITE_PKG)]).as_deref(),
        Some("npm run dev")
    );
}

#[test]
fn other_languages_in_table_order() {
    assert_eq!(primary(&["Cargo.toml"], &[]).as_deref(), Some("cargo run"));
    assert_eq!(primary(&["go.mod"], &[]).as_deref(), Some("go run ."));
    assert_eq!(primary(&["pom.xml"], &[]).as_deref(), Some("mvn spring-boot:run"));
    assert_eq!(primary(&["build.gradle.kts"], &[]).as_deref(), Some("gradle bootRun"));
    assert_eq!(primary(&["manage.py"], &[]).as_deref(), Some("python3 manage.py runserver"));
    assert_eq!(primary(&["pyproject.toml"], &[]).as_deref(), Some("uv run"));
    assert_eq!(primary(&["requirements.txt"], &[]).as_deref(), Some("python3 main.py"));
    assert_eq!(primary(&["Gemfile"], &[]).as_deref(), Some("bundle exec rails server"));
    assert_eq!(primary(&["mix.exs"], &[]).as_deref(), Some("mix phx.server"));
    assert_eq!(primary(&["composer.json", "artisan"], &[]).as_deref(), Some("php artisan serve"));
    assert_eq!(primary(&["composer.json"], &[]).as_deref(), Some("php -S localhost:8000"));
    assert_eq!(primary(&["Program.fs"], &[]).as_deref(), Some("dotnet run"));
    assert_eq!(primary(&["index.ts"], &[]).as_deref(), Some("node index.js"));
    assert_eq!(primary(&["server.js"], &[]).as_deref(), Some("node server.js"));
    assert_eq!(primary(&["README.md"], &[]), None);
}

#[test]
fn main_py_by_framework() {
    assert_eq!(
        primary(&["main.py"], &[("main.py", "from fastapi import FastAPI")]).as_deref(),
        Some("uvicorn main:app --reload")
    );
    assert_eq!(
        primary(&["main.py"], &[("main.py", "from flask import Flask")]).as_deref(),
        Some("flask run")
    );
    assert_eq!(primary(&["main.py"], &[("main.py", "print(1)")]).as_deref(), Some("python3 main.py"));
    assert_eq!(primary(&["main.py"], &[]).as_deref(), Some("python3 main.py"));
}

#[test]
fn makefile_targets() {
    assert_eq!(primary(&["Makefile"], &[("Makefile", "dev:\n\tgo run .\n")]).as_deref(), Some("make dev"));
    assert_eq!(primary(&["Makefile"], &[("Makefile", "run:\n\t./x\n")]).as_deref(), Some("make run"));
    assert_eq!(primary(&["Makefile"], &[("Makefile", "start:\n\t./x\n")]).as_deref(), Some("make start"));
    assert_eq!(primary(&["Makefile"], &[("Makefile", "all:\n")]).as_deref(), Some("make"));
}

const COMPOSE: &str = "version: '3'\nservices:\n  redis:\n    image: redis\n  postgres:\n    image: postgres\n  app:\n    build: .\n  db:\n    image: mysql\n";

#[test]
fn compose_known_services() {
    let found = detect_compose(&probe(&["docker-compose.yml"], &[("docker-compose.yml", COMPOSE)]), &tools());
    assert_eq!(
        summary(&found),
        vec![
            ("Redis".to_string(), "docker compose up redis".to_string(), None),
            ("Database".to_string(), "docker compose up postgres".to_string(), None),
        ]
    );
}

#[test]
fn compose_file_names_in_order() {
    let t = Toolchain { python: "python".to_string(), compose: "docker-compose".to_string() };
    let p = probe(
        &["compose.yaml"],
        &[("compose.yaml", "services:\n  grafana:\n    image: g\n")],
    );
    let found = detect_compose(&p, &t);
    assert_eq!(summary(&found), vec![("Grafana".to_string(), "docker-compose up grafana".to_string(), None)]);
    assert!(detect_compose(&probe(&[], &[]), &t).is_empty());
}

#[test]
fn compose_lookup_table() {
    assert_eq!(known_compose_service("postgres"), Some("Database"));
    assert_eq!(known_compose_service("s3"), Some("S3 (MinIO)"));
    assert_eq!(known_compose_service("pgadmin"), Some("pgAdmin"));
    assert_eq!(known_compose_service("webapp"), None);
}

#[test]
fn tooling_services() {
    let found = detect_tooling(&probe(&["Dockerfile", "justfile", "main.tf", "flake.nix"], &[]));
    assert_eq!(
        summary(&found),
        vec![
            ("Docker Build".to_string(), "docker build -t app .".to_string(), None),
            ("Tasks".to_string(), "just".to_string(), None),
            ("Terraform".to_string(), "terraform plan".to_string(), None),
            ("Nix Shell".to_string(), "nix develop".to_string(), None),
        ]
    );
    let found = detect_tooling(&probe(&["justfile", "Makefile", "Taskfile.yml"], &[]));
    assert_eq!(summary(&found), vec![("Tasks".to_string(), "task dev".to_string(), None)]);
    assert!(detect_tooling(&probe(&[".tf"], &[])).is_empty());
}

#[test]
fn subdir_services_run_in_their_directory() {
    let p = project(
        probe(&["frontend", "backend", "node_modules", ".git"], &[]),
        vec![
            ("frontend", probe(&["package.json"], &[("package.json", VITE_PKG)])),
            ("backend", probe(&["server.js", "Dockerfile"], &[])),
            ("node_modules", probe(&["package.json"], &[("package.json", VITE_PKG)])),
            (".git", probe(&["Makefile"], &[])),
        ],
    );
    let found = detect_subdirs(&p, &tools());
    assert_eq!(
        summary(&found),
        vec![
            ("Frontend".to_string(), "npm run dev".to_string(), Some("frontend".to_string())),
            ("Backend".to_string(), "node server.js".to_string(), Some("backend".to_string())),
            ("Docker Build".to_string(), "docker build -t app .".to_string(), Some("backend".to_string())),
        ]
    );
    assert_eq!(found[0].id, "frontend::Frontend");
    assert_eq!(found[2].id, "backend::Docker Build");
}

#[test]
fn subdir_with_project_file_but_no_service_gets_a_default() {
    let p = project(
        probe(&["infra"], &[]),
        vec![("infra", probe(&["docker-compose.yml"], &[("docker-compose.yml", "services:\n  app:\n    build: .\n")]))],
    );
    let found = detect_subdirs(&p, &tools());
    assert_eq!(
        summary(&found),
        vec![("Infra".to_string(), "npm run dev".to_string(), Some("infra".to_string()))]
    );
}

#[test]
fn full_detection_merges_by_id() {
    let p = project(
        probe(&["package.json", "docker-compose.yml", "justfile", "Taskfile.yml", "web"], &[
            ("package.json", VITE_PKG),
            ("docker-compose.yml", COMPOSE),
        ]),
        vec![("web", probe(&["go.mod"], &[]))],
    );
    let found = detect_services_for(&p, &vec![], &tools());
    assert_eq!(
        summary(&found),
        vec![
            ("Dev".to_string(), "npm run dev".to_string(), None),
            ("Redis".to_string(), "docker compose up redis".to_string(), None),
            ("Database".to_string(), "docker compose up postgres".to_string(), None),
            ("Web".to_string(), "go run .".to_string(), Some("web".to_string())),
            ("Tasks".to_string(), "just".to_string(), None),
        ]
    );
}

#[test]
fn empty_directory_detects_nothing() {
    let p = project(probe(&[], &[]), vec![]);
    assert!(detect_services_for(&p, &vec![], &tools()).is_empty());
}

fn monorepo_config() -> Vec<ConfigEntry> {
    vec![
        ConfigEntry {
            name: "Frontend".to_string(),
            cmd: "npm run dev".to_string(),
            dir: Some("frontend".to_string()),
            url: Some("http://localhost:5173".to_string()),
        },
        ConfigEntry { name: "Backend".to_string(), cmd: "node server.js".to_string(), dir: None, url: None },
    ]
}

#[test]
fn config_is_the_sole_source() {
    let p = project(
        probe(&["Cargo.toml", "frontend"], &[]),
        vec![("frontend", probe(&["package.json"], &[("package.json", VITE_PKG)]))],
    );
    let found = detect_services_for(&p, &monorepo_config(), &tools());
    assert_eq!(
        summary(&found),
        vec![
            ("Frontend".to_string(), "npm run dev".to_string(), Some("frontend".to_string())),
            ("Backend".to_string(), "node server.js".to_string(), None),
        ]
    );
    assert_eq!(found[0].url.as_deref(), Some("http://localhost:5173"));
    assert_eq!(found[0].id, "frontend::Frontend");
}

#[test]
fn init_merges_detected_and_config_services() {
    let p = project(
        probe(&["Cargo.toml", "frontend"], &[]),
        vec![("frontend", probe(&["package.json"], &[("package.json", VITE_PKG)]))],
    );
    let found = detect_services_for_init(&p, &monorepo_config(), &tools());
    assert_eq!(
        summary(&found),
        vec![
            ("Dev".to_string(), "cargo run".to_string(), None),
            ("Frontend".to_string(), "npm run dev".to_string(), Some("frontend".to_string())),
            ("Backend".to_string(), "node server.js".to_string(), None),
        ]
    );
    assert_eq!(found[1].url, None);
}

#[test]
fn services_from_config_keep_the_url() {
    let found = services_from_config(&monorepo_config());
    assert_eq!(found.len(), 2);
    assert_eq!(found[0].url.as_deref(), Some("http://localhost:5173"));
    assert_eq!(found[1].id, "Backend");
}

#[test]
fn merge_keeps_the_first_of_each_id() {
    let base = vec![Service::new("Dev", "cargo run"), Service::new("Tasks", "just")];
    let extra = vec![Service::new("Tasks", "task dev"), Service::new_with_dir("Tasks", "task dev", "x")];
    let merged = merge_services(base, extra);
    assert_eq!(
        summary(&merged),
        vec![
            ("Dev".to_string(), "cargo run".to_string(), None),
            ("Tasks".to_string(), "just".to_string(), None),
            ("Tasks".to_string(), "task dev".to_string(), Some("x".to_string())),
        ]
    );
}

#[test]
fn config_file_names() {
    let p = probe(&["rudder.toml", ".rudder.toml"], &[("rudder.toml", "a"), (".rudder.toml", "b")]);
    assert_eq!(config_source(&p).as_deref(), Some("a"));
    let p = probe(&[".rudder.toml"], &[(".rudder.toml", "b")]);
    assert_eq!(config_source(&p).as_deref(), Some("b"));
    assert_eq!(config_source(&probe(&[], &[])), None);
}

#[test]
fn capitalize_upper_cases_the_first_character() {
    assert_eq!(capitalize("frontend"), "Frontend");
    assert_eq!(capitalize(""), "");
    assert_eq!(capitalize("émile"), "Émile");
    assert_eq!(capitalize("ßtraße"), "SStraße");
}

#[test]
fn subdirectory_rules() {
    assert!(is_ignored_subdir("node_modules"));
    assert!(is_ignored_subdir(".hidden"));
    assert!(is_ignored_subdir("__pycache__"));
    assert!(!is_ignored_subdir("frontend"));
    assert!(has_any_project_file(&probe(&["Taskfile.yaml"], &[])));
    assert!(!has_any_project_file(&probe(&["README.md"], &[])));
    assert!(has(&probe(&["a", "b"], &[]), "b"));
    assert!(!has(&probe(&["a", "b"], &[]), "c"));
}

#[test]
fn angular_packages_use_ng_serve() {
    let ng = r#"{"scripts":{"dev":"ng serve"},"dependencies":{"@angular/core":"17","@angular/router":"17"}}"#;
    assert_eq!(primary(&["package.json"], &[("package.json", ng)]).as_deref(), Some("ng serve"));
}

#[test]
fn compose_keys_outside_services_do_not_count() {
    let text = "services:\n  db:\n    image: postgres\nvolumes:\n  redis:\n";
    let found = detect_compose(&probe(&["compose.yml"], &[("compose.yml", text)]), &tools());
    assert_eq!(summary(&found), vec![("Database".to_string(), "docker compose up db".to_string(), None)]);
    let text = "# stack\nservices:\n# cache below\n  redis:\n    image: redis\n\nnetworks:\n  mq:\n";
    let found = detect_compose(&probe(&["compose.yml"], &[("compose.yml", text)]), &tools());
    assert_eq!(summary(&found), vec![("Redis".to_string(), "docker compose up redis".to_string(), None)]);
}

#[test]
fn config_entries_with_a_taken_name_are_dropped() {
    let mut config = monorepo_config();
    config.push(ConfigEntry { name: "Frontend".to_string(), cmd: "vite".to_string(), dir: None, url: None });
    let p = project(probe(&[], &[]), vec![]);
    let found = detect_services_for(&p, &config, &tools());
    assert_eq!(
        summary(&found),
        vec![
            ("Frontend".to_string(), "npm run dev".to_string(), Some("frontend".to_string())),
            ("Backend".to_string(), "node server.js".to_string(), None),
        ]
    );
}

#[test]
fn compose_counts_only_keys_of_the_services_mapping() {
    let text = "services:\n  db:\n    mongodb:\n      x: 1\n  web:\n    depends_on:\n      redis:\n        condition: service_started\n    networks:\n      cache:\n";
    let found = detect_compose(&probe(&["compose.yml"], &[("compose.yml", text)]), &tools());
    assert_eq!(summary(&found), vec![("Database".to_string(), "docker compose up db".to_string(), None)]);
    let text = "services:\n    redis:\n      image: redis\n    grafana:\n      image: g\n";
    let found = detect_compose(&probe(&["compose.yml"], &[("compose.yml", text)]), &tools());
    assert_eq!(
        summary(&found),
        vec![
            ("Redis".to_string(), "docker compose up redis".to_string(), None),
            ("Grafana".to_string(), "docker compose up grafana".to_string(), None),
        ]
    );
}

#[test]
fn a_file_that_is_not_listed_is_not_read() {
    assert_eq!(primary(&["Makefile"], &[("package.json", VITE_PKG), ("Makefile", "run:\n")]).as_deref(), Some("make run"));
    assert_eq!(config_source(&probe(&[], &[("rudder.toml", "a")])), None);
}
