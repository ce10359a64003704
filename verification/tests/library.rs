use ticketdb::backend::{
    select_backend, ensure_schema_sql, insert_returning_sql, select_raw_sql, select_typed_sql,
    default_ticket_name, Backend, POOL_MAX_CONNECTIONS,
};
use ticketdb::digits::{i64_to_dec, u64_to_dec};
use ticketdb::options::{
    effective_options, opts_to_json, opts_to_yaml, parse_opts_json, parse_opts_yaml,
    should_dump_options, Opts,
};
use ticketdb::ticket::{render_tickets, Ticket, TicketTable};

#[test]
fn selector_routes_sqlite() {
    assert_eq!(select_backend("sqlite://test.db"), Some(Backend::Sqlite));
    assert_eq!(select_backend("sqlite://"), Some(Backend::Sqlite));
}

#[test]
fn selector_routes_postgres() {
    assert_eq!(
        select_backend("postgres://localhost/tickets"),
        Some(Backend::Postgres)
    );
    assert_eq!(select_backend("postgres://"), Some(Backend::Postgres));
}

#[test]
fn selector_rejects_unsupported_prefixes() {
    assert_eq!(select_backend("mysql://localhost/tickets"), None);
    assert_eq!(select_backend(""), None);
    assert_eq!(select_backend("sqlite:/test.db"), None);
    assert_eq!(select_backend("SQLITE://test.db"), None);
    assert_eq!(select_backend("a postgres:// elsewhere"), None);
}

#[test]
fn pool_cap_is_five() {
    assert_eq!(POOL_MAX_CONNECTIONS, 5);
}

#[test]
fn sql_texts_per_backend() {
    assert_eq!(
        ensure_schema_sql(Backend::Sqlite),
        "CREATE TABLE IF NOT EXISTS ticket (\n  id integer primary key autoincrement,\n  name text\n);"
    );
    assert_eq!(
        ensure_schema_sql(Backend::Postgres),
        "CREATE TABLE IF NOT EXISTS ticket (\n  id bigserial,\n  name text\n);"
    );
    assert_eq!(
        insert_returning_sql(),
        "insert into ticket (name) values ($1) returning id"
    );
    assert_eq!(select_raw_sql(), "SELECT * FROM ticket");
    assert_eq!(select_typed_sql(), "SELECT id, name FROM ticket");
    assert_eq!(default_ticket_name(), "a new ticket");
}

#[test]
fn scenario_single_run() {
    let mut db = TicketTable::new();
    db.ensure_schema();
    let id = db.insert_returning_id(default_ticket_name());
    assert_eq!(id, 1);
    assert_eq!(db.select_all_raw(), "1 - a new ticket");
    let rows = db.select_all_typed();
    assert_eq!(rows.len(), 1);
    assert_eq!(rows[0].id, 1);
    assert_eq!(rows[0].name, "a new ticket");
}

#[test]
fn scenario_second_run_appends() {
    let mut db = TicketTable::new();
    db.ensure_schema();
    let first = db.insert_returning_id(default_ticket_name());
    db.ensure_schema();
    let second = db.insert_returning_id(default_ticket_name());
    assert_eq!(first, 1);
    assert_eq!(second, 2);
    assert_eq!(db.select_all_raw(), "1 - a new ticket, 2 - a new ticket");
    let rows = db.select_all_typed();
    assert_eq!(rows.len(), 2);
    assert_eq!(rows[0].id, 1);
    assert_eq!(rows[1].id, 2);
    assert_eq!(rows[1].name, "a new ticket");
}

#[test]
fn ensure_schema_twice_changes_nothing() {
    let mut db = TicketTable::new();
    db.ensure_schema();
    let rows_before = db.select_all_typed();
    let next_before = db.next_id;
    db.ensure_schema();
    assert!(db.table_exists);
    assert_eq!(db.next_id, next_before);
    let rows_after = db.select_all_typed();
    assert_eq!(rows_before, rows_after);
}

#[test]
fn insert_ids_are_fresh_and_increasing() {
    let mut db = TicketTable::new();
    db.ensure_schema();
    let a = db.insert_returning_id("first");
    let b = db.insert_returning_id("second");
    let c = db.insert_returning_id("third");
    assert!(a < b && b < c);
    assert_ne!(a, b);
    assert_ne!(b, c);
    assert_ne!(a, c);
}

#[test]
fn read_paths_agree_on_pairs() {
    let mut db = TicketTable::new();
    db.ensure_schema();
    db.insert_returning_id("one");
    db.insert_returning_id("two");
    let raw = db.select_all_raw();
    let typed = db.select_all_typed();
    let rendered = render_tickets(&typed);
    assert_eq!(raw, rendered);
    assert_eq!(raw, "1 - one, 2 - two");
}

#[test]
fn render_handles_empty_and_negative() {
    assert_eq!(render_tickets(&Vec::new()), "");
    let rows = vec![
        Ticket { id: -7, name: "below zero".to_string() },
        Ticket { id: 0, name: "".to_string() },
    ];
    assert_eq!(render_tickets(&rows), "-7 - below zero, 0 - ");
}

#[test]
fn decimal_rendering_exact() {
    assert_eq!(u64_to_dec(0), "0");
    assert_eq!(u64_to_dec(1234567890), "1234567890");
    assert_eq!(i64_to_dec(-1), "-1");
    assert_eq!(i64_to_dec(-2147483648), "-2147483648");
    assert_eq!(i64_to_dec(42), "42");
}

fn sample_opts() -> Opts {
    Opts {
        target_host: "localhost".to_string(),
        db: "sqlite://test.db".to_string(),
        options_override: None,
        verbose: 0,
    }
}

#[test]
fn json_text_is_canonical() {
    let text = opts_to_json(&sample_opts()).unwrap();
    assert_eq!(
        text,
        "{\"target_host\":\"localhost\",\"db\":\"sqlite://test.db\",\"options_override\":null,\"verbose\":0}"
    );
}

#[test]
fn json_round_trip_reproduces_options() {
    let opts = Opts {
        target_host: "build02".to_string(),
        db: "postgres://localhost/tickets".to_string(),
        options_override: Some("conf/extra.json".to_string()),
        verbose: 7,
    };
    let text = opts_to_json(&opts).unwrap();
    let back = parse_opts_json(&text).unwrap();
    assert_eq!(back.target_host, opts.target_host);
    assert_eq!(back.db, opts.db);
    assert_eq!(back.options_override, opts.options_override);
    assert_eq!(back.verbose, opts.verbose);
}

#[test]
fn json_round_trip_negative_verbose() {
    let opts = Opts { verbose: -3, ..sample_opts() };
    let text = opts_to_json(&opts).unwrap();
    let back = parse_opts_json(&text).unwrap();
    assert_eq!(back.verbose, -3);
}

#[test]
fn json_refuses_quote_in_value() {
    let opts = Opts { target_host: "a\"b".to_string(), ..sample_opts() };
    assert!(opts_to_json(&opts).is_none());
    let opts = Opts { db: "back\\slash".to_string(), ..sample_opts() };
    assert!(opts_to_json(&opts).is_none());
}

#[test]
fn json_parser_rejects_malformed_text() {
    assert!(parse_opts_json("").is_none());
    assert!(parse_opts_json("not json at all").is_none());
    assert!(parse_opts_json("{\"target_host\":\"a\",\"db\":\"b\"}").is_none());
    assert!(parse_opts_json(
        "{\"target_host\":\"a\",\"db\":\"b\",\"options_override\":null,\"verbose\":0} "
    )
    .is_none());
    assert!(parse_opts_json(
        "{\"target_host\":\"a\",\"db\":\"b\",\"options_override\":null,\"verbose\":99999999999}"
    )
    .is_none());
}

#[test]
fn yaml_text_is_canonical() {
    let text = opts_to_yaml(&sample_opts()).unwrap();
    assert_eq!(
        text,
        "target_host: localhost\ndb: sqlite://test.db\noptions_override: null\nverbose: 0\n"
    );
}

#[test]
fn yaml_round_trip_reproduces_options() {
    let opts = Opts {
        target_host: "host with spaces".to_string(),
        db: "sqlite://data/tickets.db".to_string(),
        options_override: Some("opts.yaml".to_string()),
        verbose: 11,
    };
    let text = opts_to_yaml(&opts).unwrap();
    let back = parse_opts_yaml(&text).unwrap();
    assert_eq!(back.target_host, opts.target_host);
    assert_eq!(back.db, opts.db);
    assert_eq!(back.options_override, opts.options_override);
    assert_eq!(back.verbose, opts.verbose);
}

#[test]
fn yaml_refuses_ambiguous_values() {
    let opts = Opts { options_override: Some("null".to_string()), ..sample_opts() };
    assert!(opts_to_yaml(&opts).is_none());
    let opts = Opts { target_host: "two\nlines".to_string(), ..sample_opts() };
    assert!(opts_to_yaml(&opts).is_none());
}

#[test]
fn yaml_absent_override_reads_back_as_none() {
    let text = opts_to_yaml(&sample_opts()).unwrap();
    let back = parse_opts_yaml(&text).unwrap();
    assert_eq!(back.options_override, None);
}

#[test]
fn pipeline_keeps_cli_options_without_contents() {
    let cli = sample_opts();
    let eff = effective_options(cli, None).unwrap();
    assert_eq!(eff.target_host, "localhost");
    assert_eq!(eff.db, "sqlite://test.db");
    assert_eq!(eff.verbose, 0);
}

#[test]
fn pipeline_prefers_json_contents() {
    let cli = sample_opts();
    let text = "{\"target_host\":\"other\",\"db\":\"postgres://localhost/t\",\"options_override\":null,\"verbose\":5}";
    let eff = effective_options(cli, Some(text)).unwrap();
    assert_eq!(eff.target_host, "other");
    assert_eq!(eff.db, "postgres://localhost/t");
    assert_eq!(eff.verbose, 5);
}

#[test]
fn pipeline_falls_back_to_yaml_contents() {
    let cli = sample_opts();
    let text = "target_host: fallback\ndb: sqlite://other.db\noptions_override: null\nverbose: 2\n";
    let eff = effective_options(cli, Some(text)).unwrap();
    assert_eq!(eff.target_host, "fallback");
    assert_eq!(eff.db, "sqlite://other.db");
    assert_eq!(eff.verbose, 2);
}

#[test]
fn pipeline_reports_unreadable_contents() {
    let cli = sample_opts();
    assert!(effective_options(cli, Some("neither format")).is_none());
}

#[test]
fn verbosity_threshold_for_dump() {
    assert!(!should_dump_options(4));
    assert!(should_dump_options(5));
    assert!(should_dump_options(6));
    assert!(!should_dump_options(-1));
}
