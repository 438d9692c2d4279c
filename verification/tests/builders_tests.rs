use myshortcuts::builders::{
    filter_config, mariadb, mongodb, mysql, neo4j, oracle, postgresql, redis, sqlite,
};

fn fields(values: &[&str]) -> Vec<String> {
    values.iter().map(|v| String::from(*v)).collect()
}

#[test]
fn postgresql_scenario_exports_password_and_omits_script_flag() {
    let v = filter_config(fields(&["db.local", "5432", "alice", "secret", "mydb", ""]));
    let command = postgresql(&v);
    assert_eq!(
        command,
        "export PGPASSWORD='secret' && psql -h db.local -p 5432 -U alice -d mydb"
    );
    assert!(command.contains("-h db.local"));
    assert!(command.contains("-p 5432"));
    assert!(command.contains("-U alice"));
    assert!(command.contains("-d mydb"));
    assert!(!command.contains("-f"));
}

#[test]
fn postgresql_without_password_has_no_export() {
    let v = fields(&["h", "1", "u", "", "db", "run.sql"]);
    assert_eq!(postgresql(&v), "psql -h h -p 1 -U u -d db -f run.sql");
}

#[test]
fn mysql_uses_socket_and_redirect() {
    let v = fields(&["h", "3306", "u", "pw", "db", "/tmp/s.sock", "run.sql"]);
    assert_eq!(
        mysql(&v),
        "mysql -h h -P 3306 -u u -p'pw' --protocol=socket -S /tmp/s.sock db < run.sql"
    );
}

#[test]
fn mariadb_is_mysql_under_the_mariadb_client() {
    let v = fields(&["h", "3306", "u", "", "db"]);
    assert_eq!(mariadb(&v), "mariadb -h h -P 3306 -u u db");
    assert_eq!(mysql(&v), "mysql -h h -P 3306 -u u db");
}

#[test]
fn sqlite_redirects_script_when_given() {
    assert_eq!(sqlite(&fields(&["db.sqlite", "run.sql"])), "sqlite3 db.sqlite < run.sql");
    assert_eq!(sqlite(&fields(&["db.sqlite"])), "sqlite3 db.sqlite");
    assert_eq!(sqlite(&fields(&["db.sqlite", ""])), "sqlite3 db.sqlite");
    assert_eq!(sqlite(&fields(&[])), "echo 'Inconsistent SQLite arguments'");
    assert_eq!(sqlite(&fields(&["", "run.sql"])), "echo 'Inconsistent SQLite arguments'");
}

#[test]
fn oracle_builds_connect_string() {
    let v = fields(&["h", "1521", "u", "pw", "orcl", ""]);
    assert_eq!(oracle(&v), "sqlplus u/pw@h:1521/orcl");
    let plain = fields(&["h", "1521", "u", "pw"]);
    assert_eq!(oracle(&plain), "sqlplus u/pw@h:1521");
}

#[test]
fn oracle_with_script_runs_silently() {
    let v = fields(&["h", "1521", "u", "pw", "orcl", "run.sql"]);
    assert_eq!(oracle(&v), "echo exit | sqlplus -s  u/pw@h:1521/orcl @run.sql");
}

#[test]
fn oracle_missing_connection_reports_inconsistency() {
    assert_eq!(oracle(&fields(&["h", "", "u", "pw"])), "echo 'Inconsistent Oracle arguments'");
    assert_eq!(oracle(&fields(&[])), "echo 'Inconsistent Oracle arguments'");
}

#[test]
fn redis_flags_per_field() {
    let v = fields(&["h", "6379", "u", "pw", "2", "s.lua"]);
    assert_eq!(redis(&v), "redis-cli -h h -p 6379 --user u -a pw -n 2 --eval s.lua");
    assert_eq!(redis(&fields(&["h"])), "redis-cli -h h");
}

#[test]
fn mongodb_flags_per_field() {
    let v = fields(&["h", "27017", "u", "pw", "admin", "run.js"]);
    assert_eq!(
        mongodb(&v),
        "mongosh --host h --port 27017 -u u -p pw --authenticationDatabase admin -f run.js"
    );
}

#[test]
fn neo4j_address_needs_host_and_port() {
    let v = fields(&["h", "7687", "u", "pw", "db", "run.cy"]);
    assert_eq!(neo4j(&v), "cypher-shell -a neo4j://h:7687 -u u -p pw -d db -f run.cy");
    let no_port = fields(&["h", "", "u"]);
    assert_eq!(neo4j(&no_port), "cypher-shell -u u");
}

#[test]
fn filter_config_trims_trailing_blanks_only() {
    let v = filter_config(fields(&["a", "", "b", "", "\n", ""]));
    assert_eq!(v, fields(&["a", "", "b"]));
    let empty = filter_config(fields(&["", "\n"]));
    assert!(empty.is_empty());
}
