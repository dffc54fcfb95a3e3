use daemon_green::render::{launchd_plist, systemd_unit, xml};
use daemon_green::service::{ProcessType, ServiceSpec};

fn spec() -> ServiceSpec {
    ServiceSpec::new("com.example.daemon", "/usr/local/bin/exampled")
        .arg("serve")
        .env("EX_DIR", "/home/x")
        .log_path("/tmp/ex.log")
}

#[test]
fn launchd_has_no_sessioncreate_and_direct_program() {
    let p = launchd_plist(&spec());
    assert!(
        !p.contains("SessionCreate"),
        "plist MUST NOT contain SessionCreate; got:\n{p}"
    );
    assert!(
        p.contains("<string>/usr/local/bin/exampled</string>"),
        "direct program; got:\n{p}"
    );
    assert!(!p.contains("bash"), "no bash wrapper; got:\n{p}");
    assert!(p.contains("<key>Label</key>"));
    assert!(p.contains("<string>com.example.daemon</string>"));
    assert!(p.contains("EX_DIR"));
    assert!(p.contains("RunAtLoad"));
    assert!(p.contains("KeepAlive"));
    assert!(p.contains("StandardOutPath"));
}

#[test]
fn launchd_escapes_xml_in_values() {
    let s = ServiceSpec::new("com.x", "/bin/x").env("Q", "a&b<c>");
    let p = launchd_plist(&s);
    assert!(
        p.contains("a&amp;b&lt;c&gt;"),
        "values must be XML-escaped; got:\n{p}"
    );
}

#[test]
fn launchd_omits_empty_associated_bundle_identifiers() {
    let p = launchd_plist(&spec());
    assert!(
        !p.contains("AssociatedBundleIdentifiers"),
        "empty association must be omitted; got:\n{p}"
    );
}

#[test]
fn launchd_renders_escaped_associated_bundle_identifiers() {
    let s = spec().associated_bundle_identifiers(&["com.example.owner", "com.x&<>"]);
    let p = launchd_plist(&s);
    let expected = "    <key>AssociatedBundleIdentifiers</key>\n    <array>\n        <string>com.example.owner</string>\n        <string>com.x&amp;&lt;&gt;</string>\n    </array>\n";
    assert!(
        p.contains(expected),
        "association must render as an escaped array; got:\n{p}"
    );
}

#[test]
fn systemd_ignores_associated_bundle_identifiers() {
    let base = systemd_unit(&spec());
    let associated = systemd_unit(&spec().associated_bundle_identifiers(&["com.example.owner"]));
    assert_eq!(
        base, associated,
        "Linux output must not contain macOS-only fields"
    );
}

#[test]
fn systemd_has_execstart_restart_and_wantedby() {
    let u = systemd_unit(&spec());
    assert!(
        u.contains("ExecStart=/usr/local/bin/exampled serve"),
        "got:\n{u}"
    );
    assert!(u.contains("Restart=always"), "got:\n{u}");
    assert!(u.contains("WantedBy=default.target"), "got:\n{u}");
    assert!(u.contains("Environment=EX_DIR=/home/x"), "got:\n{u}");
    assert!(u.contains("StartLimitBurst=5"), "got:\n{u}");
}

#[test]
fn keep_alive_false_omits_restart_directives() {
    let s = spec().keep_alive(false);
    assert!(!systemd_unit(&s).contains("Restart=always"));
    let p = launchd_plist(&s);
    assert!(!p.contains("KeepAlive"));
}

#[test]
fn default_process_type_is_background() {
    let p = launchd_plist(&spec());
    assert!(
        p.contains("<key>ProcessType</key>\n    <string>Background</string>"),
        "default ProcessType must render as Background for backward compat; got:\n{p}"
    );
}

#[test]
fn process_type_standard_renders_standard() {
    let s = spec().process_type(ProcessType::Standard);
    let p = launchd_plist(&s);
    assert!(
        p.contains("<key>ProcessType</key>\n    <string>Standard</string>"),
        "ProcessType::Standard must render as Standard; got:\n{p}"
    );
    assert!(
        !p.contains("<string>Background</string>"),
        "must not also render Background; got:\n{p}"
    );
}

#[test]
fn full_plist_is_exact() {
    let s = spec()
        .args(&["--name", "a b"])
        .env("B&C", "<1>")
        .working_dir("/srv/<x>")
        .associated_bundle_identifiers(&["com.example.owner"]);
    let expected = "<?xml version=\"1.0\" encoding=\"UTF-8\"?>
<!DOCTYPE plist PUBLIC \"-//Apple//DTD PLIST 1.0//EN\" \"http://www.apple.com/DTDs/PropertyList-1.0.dtd\">
<plist version=\"1.0\">
<dict>
    <key>Label</key>
    <string>com.example.daemon</string>
    <key>ProgramArguments</key>
    <array>
        <string>/usr/local/bin/exampled</string>
        <string>serve</string>
        <string>--name</string>
        <string>a b</string>
    </array>
    <key>AssociatedBundleIdentifiers</key>
    <array>
        <string>com.example.owner</string>
    </array>
    <key>WorkingDirectory</key>
    <string>/srv/&lt;x&gt;</string>
    <key>EnvironmentVariables</key>
    <dict>
        <key>EX_DIR</key>
        <string>/home/x</string>
        <key>B&amp;C</key>
        <string>&lt;1&gt;</string>
    </dict>
    <key>RunAtLoad</key>
    <true/>
    <key>KeepAlive</key>
    <dict>
        <key>SuccessfulExit</key>
        <false/>
    </dict>
    <key>StandardOutPath</key>
    <string>/tmp/ex.log</string>
    <key>StandardErrorPath</key>
    <string>/tmp/ex.log</string>
    <key>ProcessType</key>
    <string>Background</string>
</dict>
</plist>
";
    assert_eq!(launchd_plist(&s), expected);
}

#[test]
fn smallest_plist_is_exact() {
    let s = ServiceSpec::new("com.x", "/bin/x")
        .run_at_load(false)
        .keep_alive(false)
        .process_type(ProcessType::Standard);
    let expected = "<?xml version=\"1.0\" encoding=\"UTF-8\"?>
<!DOCTYPE plist PUBLIC \"-//Apple//DTD PLIST 1.0//EN\" \"http://www.apple.com/DTDs/PropertyList-1.0.dtd\">
<plist version=\"1.0\">
<dict>
    <key>Label</key>
    <string>com.x</string>
    <key>ProgramArguments</key>
    <array>
        <string>/bin/x</string>
    </array>
    <key>ProcessType</key>
    <string>Standard</string>
</dict>
</plist>
";
    assert_eq!(launchd_plist(&s), expected);
}

#[test]
fn full_unit_is_exact() {
    let s = spec()
        .args(&["--name", "a b", ""])
        .env("E", "a b")
        .working_dir("/srv/x y");
    let expected = "[Unit]
Description=com.example.daemon
After=network-online.target
Wants=network-online.target
StartLimitIntervalSec=60
StartLimitBurst=5

[Service]
Type=simple
ExecStart=/usr/local/bin/exampled serve --name \"a b\" 
WorkingDirectory=/srv/x y
Environment=EX_DIR=/home/x
Environment=E=a b
Restart=always
RestartSec=2
StandardOutput=append:/tmp/ex.log
StandardError=append:/tmp/ex.log

[Install]
WantedBy=default.target
";
    assert_eq!(systemd_unit(&s), expected);
}

#[test]
fn smallest_unit_is_exact() {
    let s = ServiceSpec::new("com.x", "/bin/x")
        .run_at_load(false)
        .keep_alive(false);
    let expected = "[Unit]
Description=com.x
After=network-online.target
Wants=network-online.target
StartLimitIntervalSec=60
StartLimitBurst=5

[Service]
Type=simple
ExecStart=/bin/x

[Install]
";
    assert_eq!(systemd_unit(&s), expected);
}

#[test]
fn unit_quotes_every_kind_of_white_space() {
    for c in ["\t", "\n", "\u{a0}", "\u{2003}", "\u{3000}"] {
        let arg = format!("a{c}b");
        let unit = systemd_unit(&ServiceSpec::new("com.x", "/bin/x").arg(&arg));
        assert!(unit.contains(&format!("ExecStart=/bin/x \"{arg}\"\n")));
    }
    let unit = systemd_unit(&ServiceSpec::new("com.x", "/bin/x").arg("\u{200b}"));
    assert!(unit.contains("ExecStart=/bin/x \u{200b}\n"));
}

#[test]
fn unit_is_read_back_line_by_line() {
    let unit = systemd_unit(&spec());
    let lines: Vec<String> = daemon_green::text::lines(&unit);
    assert_eq!(lines.len(), 18);
    assert_eq!(lines[9], "ExecStart=/usr/local/bin/exampled serve");
    assert_eq!(lines[17], "WantedBy=default.target");
    let joined: String = lines.iter().map(|l| format!("{l}\n")).collect();
    assert_eq!(joined, unit);
}

#[test]
fn unit_ignores_the_process_type() {
    assert_eq!(
        systemd_unit(&spec()),
        systemd_unit(&spec().process_type(ProcessType::Standard))
    );
}

#[test]
fn no_value_brings_a_key_in() {
    let s = ServiceSpec::new("<key>SessionCreate</key>", "/bin/<key>SessionCreate</key>")
        .arg("<key>SessionCreate</key>")
        .env("<key>SessionCreate</key>", "<key>SessionCreate</key>")
        .working_dir("<key>SessionCreate</key>")
        .log_path("<key>SessionCreate</key>");
    assert!(!launchd_plist(&s).contains("<key>SessionCreate</key>"));
}

#[test]
fn different_services_have_different_plists() {
    let specs = [
        spec(),
        spec().arg("x"),
        spec().args(&["x", ""]),
        spec().env("A", "x"),
        spec().env("A", "y"),
        spec().working_dir("x"),
        spec().log_path("x"),
        spec().run_at_load(false),
        spec().keep_alive(false),
        spec().process_type(ProcessType::Standard),
        spec().associated_bundle_identifiers(&["x"]),
        spec().associated_bundle_identifiers(&["x</string>\n        <string>y"]),
        spec().associated_bundle_identifiers(&["x", "y"]),
    ];
    for (i, a) in specs.iter().enumerate() {
        for (j, b) in specs.iter().enumerate() {
            assert_eq!(launchd_plist(a) == launchd_plist(b), i == j, "{i} {j}");
        }
    }
}

#[test]
fn xml_escapes_as_three_replacements_do() {
    for s in ["", "plain", "&", "<", ">", "&amp;", "<&>", "a&b<c>d", "&&lt;", "é\"'"] {
        let replaced = s
            .replace('&', "&amp;")
            .replace('<', "&lt;")
            .replace('>', "&gt;");
        assert_eq!(xml(s), replaced);
    }
    assert_eq!(xml("a&b<c>"), "a&amp;b&lt;c&gt;");
}

#[test]
fn builders_set_their_fields() {
    let s = ServiceSpec::new("l", "p")
        .arg("a")
        .args(&["b", "c"])
        .env("K", "V")
        .env("K", "W")
        .working_dir("d")
        .log_path("f")
        .run_at_load(false)
        .keep_alive(false)
        .process_type(ProcessType::Standard)
        .associated_bundle_identifiers(&["x"])
        .associated_bundle_identifiers(&["y", "z"]);
    assert_eq!(s.label, "l");
    assert_eq!(s.program, "p");
    assert_eq!(s.args, ["a", "b", "c"]);
    assert_eq!(
        s.env,
        [
            ("K".to_string(), "V".to_string()),
            ("K".to_string(), "W".to_string())
        ]
    );
    assert_eq!(s.working_dir.as_deref(), Some("d"));
    assert_eq!(s.log_path.as_deref(), Some("f"));
    assert!(!s.run_at_load);
    assert!(!s.keep_alive);
    assert_eq!(s.process_type, ProcessType::Standard);
    assert_eq!(s.process_type.as_str(), "Standard");
    assert_eq!(s.associated_bundle_identifiers, ["y", "z"]);
    assert_eq!(s.clone(), s);
}
