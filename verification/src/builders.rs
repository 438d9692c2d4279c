//! The per-backend shell-command builders: pure string functions from an
//! ordered field-value sequence to the command line that launches the
//! backend's client. Empty fields contribute nothing; trailing empty
//! fields are trimmed by the caller before invocation.

use vstd::prelude::*;
use crate::text::str_eq;

verus! {

/// True when position `i` exists and holds a non-empty value.
pub open spec fn has_field(v: Seq<Seq<char>>, i: int) -> bool {
    0 <= i < v.len() && v[i].len() > 0
}

/// The one-part sequence `pre + v[i] + post` when field `i` is present
/// and non-empty, and the empty sequence otherwise.
pub open spec fn opt_part(v: Seq<Seq<char>>, i: int, pre: Seq<char>, post: Seq<char>) -> Seq<
    Seq<char>,
> {
    if has_field(v, i) {
        seq![pre + v[i] + post]
    } else {
        seq![]
    }
}

/// The parts joined by single spaces.
pub open spec fn spec_join_space(parts: Seq<Seq<char>>) -> Seq<char>
    decreases parts.len(),
{
    if parts.len() == 0 {
        Seq::<char>::empty()
    } else if parts.len() == 1 {
        parts[0]
    } else {
        parts[0] + " "@ + spec_join_space(parts.drop_first())
    }
}

proof fn lemma_join_snoc(ps: Seq<Seq<char>>, p: Seq<char>)
    ensures
        spec_join_space(ps.push(p)) == if ps.len() == 0 {
            p
        } else {
            spec_join_space(ps) + " "@ + p
        },
    decreases ps.len(),
{
    let w = ps.push(p);
    if ps.len() == 0 {
        assert(w.len() == 1);
        assert(w[0] == p);
    } else {
        assert(w.len() >= 2);
        assert(w[0] == ps[0]);
        assert(w.drop_first() =~= ps.drop_first().push(p));
        lemma_join_snoc(ps.drop_first(), p);
        if ps.len() == 1 {
            assert(ps.drop_first().len() == 0);
            assert(spec_join_space(w) == ps[0] + " "@ + p);
            assert(spec_join_space(ps) == ps[0]);
        } else {
            assert(spec_join_space(w) == ps[0] + " "@ + (spec_join_space(ps.drop_first())
                + " "@ + p));
            assert(ps[0] + " "@ + (spec_join_space(ps.drop_first()) + " "@ + p) =~= (ps[0]
                + " "@ + spec_join_space(ps.drop_first())) + " "@ + p);
        }
    }
}

/// Joins the parts with single spaces.
pub fn join_space(parts: &Vec<String>) -> (r: String)
    ensures
        r@ == spec_join_space(parts.deep_view()),
{
    let ghost ps = parts.deep_view();
    let mut out = String::new();
    let mut i: usize = 0;
    proof {
        assert(ps.subrange(0, 0) =~= Seq::<Seq<char>>::empty());
    }
    while i < parts.len()
        invariant
            0 <= i <= parts.len(),
            ps == parts.deep_view(),
            ps.len() == parts.len(),
            out@ == spec_join_space(ps.subrange(0, i as int)),
        decreases parts.len() - i,
    {
        let ghost pre = ps.subrange(0, i as int);
        proof {
            assert(ps.subrange(0, i + 1) =~= pre.push(ps[i as int]));
            lemma_join_snoc(pre, ps[i as int]);
        }
        if i > 0 {
            out.append(" ");
        }
        out.append(parts[i].as_str());
        i += 1;
    }
    proof {
        assert(ps.subrange(0, ps.len() as int) =~= ps);
    }
    out
}

/// Appends `pre + v[i] + post` as one part when field `i` is present and
/// non-empty.
fn push_opt_part(parts: &mut Vec<String>, v: &Vec<String>, i: usize, pre: &str, post: &str)
    ensures
        final(parts).deep_view() == old(parts).deep_view() + opt_part(
            v.deep_view(),
            i as int,
            pre@,
            post@,
        ),
{
    let ghost dv0 = old(parts).deep_view();
    if i < v.len() {
        if !v[i].as_str().is_empty() {
            let mut p = String::from_str(pre);
            p.append(v[i].as_str());
            p.append(post);
            parts.push(p);
            proof {
                assert(parts.deep_view() =~= dv0 + opt_part(
                    v.deep_view(),
                    i as int,
                    pre@,
                    post@,
                ));
            }
            return;
        }
    }
    proof {
        assert(parts.deep_view() =~= dv0 + opt_part(v.deep_view(), i as int, pre@, post@));
    }
}

/// Appends one literal part.
fn push_lit(parts: &mut Vec<String>, s: &str)
    ensures
        final(parts).deep_view() == old(parts).deep_view() + seq![s@],
{
    let ghost dv0 = old(parts).deep_view();
    parts.push(String::from_str(s));
    proof {
        assert(parts.deep_view() =~= dv0 + seq![s@]);
    }
}

/// The flag parts of a MySQL or MariaDB invocation.
pub open spec fn mysql_parts(v: Seq<Seq<char>>) -> Seq<Seq<char>> {
    opt_part(v, 0, "-h "@, ""@) + opt_part(v, 1, "-P "@, ""@) + opt_part(v, 2, "-u "@, ""@)
        + opt_part(v, 3, "-p'"@, "'"@) + opt_part(v, 5, "--protocol=socket -S "@, ""@)
        + opt_part(v, 4, ""@, ""@) + opt_part(v, 6, "< "@, ""@)
}

/// The command a MySQL shortcut launches.
pub open spec fn spec_mysql(v: Seq<Seq<char>>) -> Seq<char> {
    "mysql "@ + spec_join_space(mysql_parts(v))
}

/// The command a MariaDB shortcut launches: the MySQL flags under the
/// MariaDB client.
pub open spec fn spec_mariadb(v: Seq<Seq<char>>) -> Seq<char> {
    "mariadb "@ + spec_join_space(mysql_parts(v))
}

fn mysql_flag_parts(vector: &Vec<String>) -> (parts: Vec<String>)
    ensures
        parts.deep_view() == mysql_parts(vector.deep_view()),
{
    let mut parts: Vec<String> = Vec::new();
    push_opt_part(&mut parts, vector, 0, "-h ", "");
    push_opt_part(&mut parts, vector, 1, "-P ", "");
    push_opt_part(&mut parts, vector, 2, "-u ", "");
    push_opt_part(&mut parts, vector, 3, "-p'", "'");
    push_opt_part(&mut parts, vector, 5, "--protocol=socket -S ", "");
    push_opt_part(&mut parts, vector, 4, "", "");
    push_opt_part(&mut parts, vector, 6, "< ", "");
    proof {
        assert(parts.deep_view() =~= mysql_parts(vector.deep_view()));
    }
    parts
}

/// Builds the `mysql` client invocation from Host, Port, Username,
/// Password, Database, Socket Path and Script Path fields.
pub fn mysql(vector: &Vec<String>) -> (r: String)
    ensures
        r@ == spec_mysql(vector.deep_view()),
{
    let parts = mysql_flag_parts(vector);
    let mut out = String::from_str("mysql ");
    let joined = join_space(&parts);
    out.append(joined.as_str());
    out
}

/// Builds the `mariadb` client invocation, with the same flags as the
/// MySQL builder.
pub fn mariadb(vector: &Vec<String>) -> (r: String)
    ensures
        r@ == spec_mariadb(vector.deep_view()),
{
    let parts = mysql_flag_parts(vector);
    let mut out = String::from_str("mariadb ");
    let joined = join_space(&parts);
    out.append(joined.as_str());
    out
}

/// The parts of a PostgreSQL invocation: an exported password assignment
/// when a password is given, the client, then one flag per present field.
pub open spec fn pg_parts(v: Seq<Seq<char>>) -> Seq<Seq<char>> {
    opt_part(v, 3, "export PGPASSWORD='"@, "' &&"@) + seq!["psql"@] + opt_part(
        v,
        0,
        "-h "@,
        ""@,
    ) + opt_part(v, 1, "-p "@, ""@) + opt_part(v, 2, "-U "@, ""@) + opt_part(v, 4, "-d "@, ""@)
        + opt_part(v, 5, "-f "@, ""@)
}

/// The command a PostgreSQL shortcut launches.
pub open spec fn spec_postgresql(v: Seq<Seq<char>>) -> Seq<char> {
    spec_join_space(pg_parts(v))
}

/// Builds the `psql` invocation from Host, Port, Username, Password,
/// Database and Script Path fields.
pub fn postgresql(vector: &Vec<String>) -> (r: String)
    ensures
        r@ == spec_postgresql(vector.deep_view()),
{
    let mut parts: Vec<String> = Vec::new();
    push_opt_part(&mut parts, vector, 3, "export PGPASSWORD='", "' &&");
    push_lit(&mut parts, "psql");
    push_opt_part(&mut parts, vector, 0, "-h ", "");
    push_opt_part(&mut parts, vector, 1, "-p ", "");
    push_opt_part(&mut parts, vector, 2, "-U ", "");
    push_opt_part(&mut parts, vector, 4, "-d ", "");
    push_opt_part(&mut parts, vector, 5, "-f ", "");
    proof {
        assert(parts.deep_view() =~= pg_parts(vector.deep_view()));
    }
    join_space(&parts)
}

/// The parts of a Neo4j invocation: an address when both host and port
/// are given, then one flag per present field.
pub open spec fn neo4j_parts(v: Seq<Seq<char>>) -> Seq<Seq<char>> {
    (if has_field(v, 0) && has_field(v, 1) {
        seq!["-a neo4j://"@ + v[0] + ":"@ + v[1]]
    } else {
        seq![]
    }) + opt_part(v, 2, "-u "@, ""@) + opt_part(v, 3, "-p "@, ""@) + opt_part(v, 4, "-d "@, ""@)
        + opt_part(v, 5, "-f "@, ""@)
}

/// The command a Neo4j shortcut launches.
pub open spec fn spec_neo4j(v: Seq<Seq<char>>) -> Seq<char> {
    "cypher-shell "@ + spec_join_space(neo4j_parts(v))
}

/// Builds the `cypher-shell` invocation from Host, Port, Username,
/// Password, Database and Script Path fields.
pub fn neo4j(vector: &Vec<String>) -> (r: String)
    ensures
        r@ == spec_neo4j(vector.deep_view()),
{
    let mut parts: Vec<String> = Vec::new();
    if vector.len() > 1 {
        if !vector[0].as_str().is_empty() && !vector[1].as_str().is_empty() {
            let mut p = String::from_str("-a neo4j://");
            p.append(vector[0].as_str());
            p.append(":");
            p.append(vector[1].as_str());
            parts.push(p);
        }
    }
    let ghost dv0 = parts.deep_view();
    proof {
        let v = vector.deep_view();
        if has_field(v, 0) && has_field(v, 1) {
            assert(dv0 =~= seq!["-a neo4j://"@ + v[0] + ":"@ + v[1]]);
        } else {
            assert(dv0 =~= Seq::<Seq<char>>::empty());
        }
    }
    push_opt_part(&mut parts, vector, 2, "-u ", "");
    push_opt_part(&mut parts, vector, 3, "-p ", "");
    push_opt_part(&mut parts, vector, 4, "-d ", "");
    push_opt_part(&mut parts, vector, 5, "-f ", "");
    proof {
        assert(parts.deep_view() =~= neo4j_parts(vector.deep_view()));
    }
    let mut out = String::from_str("cypher-shell ");
    let joined = join_space(&parts);
    out.append(joined.as_str());
    out
}

/// The command a MongoDB shortcut launches.
pub open spec fn spec_mongodb(v: Seq<Seq<char>>) -> Seq<char> {
    "mongosh "@ + spec_join_space(
        opt_part(v, 0, "--host "@, ""@) + opt_part(v, 1, "--port "@, ""@) + opt_part(
            v,
            2,
            "-u "@,
            ""@,
        ) + opt_part(v, 3, "-p "@, ""@) + opt_part(v, 4, "--authenticationDatabase "@, ""@)
            + opt_part(v, 5, "-f "@, ""@),
    )
}

/// Builds the `mongosh` invocation from Host, Port, Username, Password,
/// Auth Database and Script Path fields.
pub fn mongodb(vector: &Vec<String>) -> (r: String)
    ensures
        r@ == spec_mongodb(vector.deep_view()),
{
    let mut parts: Vec<String> = Vec::new();
    push_opt_part(&mut parts, vector, 0, "--host ", "");
    push_opt_part(&mut parts, vector, 1, "--port ", "");
    push_opt_part(&mut parts, vector, 2, "-u ", "");
    push_opt_part(&mut parts, vector, 3, "-p ", "");
    push_opt_part(&mut parts, vector, 4, "--authenticationDatabase ", "");
    push_opt_part(&mut parts, vector, 5, "-f ", "");
    proof {
        assert(parts.deep_view() =~= opt_part(vector.deep_view(), 0, "--host "@, ""@)
            + opt_part(vector.deep_view(), 1, "--port "@, ""@) + opt_part(
            vector.deep_view(),
            2,
            "-u "@,
            ""@,
        ) + opt_part(vector.deep_view(), 3, "-p "@, ""@) + opt_part(
            vector.deep_view(),
            4,
            "--authenticationDatabase "@,
            ""@,
        ) + opt_part(vector.deep_view(), 5, "-f "@, ""@));
    }
    let mut out = String::from_str("mongosh ");
    let joined = join_space(&parts);
    out.append(joined.as_str());
    out
}

/// The command a Redis shortcut launches.
pub open spec fn spec_redis(v: Seq<Seq<char>>) -> Seq<char> {
    "redis-cli "@ + spec_join_space(
        opt_part(v, 0, "-h "@, ""@) + opt_part(v, 1, "-p "@, ""@) + opt_part(
            v,
            2,
            "--user "@,
            ""@,
        ) + opt_part(v, 3, "-a "@, ""@) + opt_part(v, 4, "-n "@, ""@) + opt_part(
            v,
            5,
            "--eval "@,
            ""@,
        ),
    )
}

/// Builds the `redis-cli` invocation from Host, Port, Username, Password,
/// Database Number and Script Path fields.
pub fn redis(vector: &Vec<String>) -> (r: String)
    ensures
        r@ == spec_redis(vector.deep_view()),
{
    let mut parts: Vec<String> = Vec::new();
    push_opt_part(&mut parts, vector, 0, "-h ", "");
    push_opt_part(&mut parts, vector, 1, "-p ", "");
    push_opt_part(&mut parts, vector, 2, "--user ", "");
    push_opt_part(&mut parts, vector, 3, "-a ", "");
    push_opt_part(&mut parts, vector, 4, "-n ", "");
    push_opt_part(&mut parts, vector, 5, "--eval ", "");
    proof {
        assert(parts.deep_view() =~= opt_part(vector.deep_view(), 0, "-h "@, ""@) + opt_part(
            vector.deep_view(),
            1,
            "-p "@,
            ""@,
        ) + opt_part(vector.deep_view(), 2, "--user "@, ""@) + opt_part(
            vector.deep_view(),
            3,
            "-a "@,
            ""@,
        ) + opt_part(vector.deep_view(), 4, "-n "@, ""@) + opt_part(
            vector.deep_view(),
            5,
            "--eval "@,
            ""@,
        ));
    }
    let mut out = String::from_str("redis-cli ");
    let joined = join_space(&parts);
    out.append(joined.as_str());
    out
}

/// The command a SQLite shortcut launches: the database file, with the
/// script redirected in when one is given; without a database path the
/// command reports the inconsistent arguments.
pub open spec fn spec_sqlite(v: Seq<Seq<char>>) -> Seq<char> {
    if has_field(v, 0) && has_field(v, 1) {
        "sqlite3 "@ + v[0] + " < "@ + v[1]
    } else if has_field(v, 0) {
        "sqlite3 "@ + v[0]
    } else {
        "echo 'Inconsistent SQLite arguments'"@
    }
}

/// Builds the `sqlite3` invocation from Database Path and Script Path
/// fields.
pub fn sqlite(vector: &Vec<String>) -> (r: String)
    ensures
        r@ == spec_sqlite(vector.deep_view()),
{
    let has0 = vector.len() > 0 && !vector[0].as_str().is_empty();
    let has1 = vector.len() > 1 && !vector[1].as_str().is_empty();
    if has0 && has1 {
        let mut out = String::from_str("sqlite3 ");
        out.append(vector[0].as_str());
        out.append(" < ");
        out.append(vector[1].as_str());
        out
    } else if has0 {
        let mut out = String::from_str("sqlite3 ");
        out.append(vector[0].as_str());
        out
    } else {
        String::from_str("echo 'Inconsistent SQLite arguments'")
    }
}

/// The command an Oracle shortcut launches: `user/password@host:port`,
/// with the database appended when given; a script path switches to a
/// silent scripted run. Missing connection fields yield a command that
/// reports the inconsistent arguments.
pub open spec fn spec_oracle(v: Seq<Seq<char>>) -> Seq<char> {
    if has_field(v, 0) && has_field(v, 1) && has_field(v, 2) && has_field(v, 3) {
        let core = v[2] + "/"@ + v[3] + "@"@ + v[0] + ":"@ + v[1];
        let with_db = if has_field(v, 4) {
            core + "/"@ + v[4]
        } else {
            core
        };
        if has_field(v, 5) {
            "echo exit | sqlplus -s  "@ + with_db + " @"@ + v[5]
        } else {
            "sqlplus "@ + with_db
        }
    } else {
        "echo 'Inconsistent Oracle arguments'"@
    }
}

/// Builds the `sqlplus` invocation from Host, Port, Username, Password,
/// Database and Script Path fields.
pub fn oracle(vector: &Vec<String>) -> (r: String)
    ensures
        r@ == spec_oracle(vector.deep_view()),
{
    let has0 = vector.len() > 0 && !vector[0].as_str().is_empty();
    let has1 = vector.len() > 1 && !vector[1].as_str().is_empty();
    let has2 = vector.len() > 2 && !vector[2].as_str().is_empty();
    let has3 = vector.len() > 3 && !vector[3].as_str().is_empty();
    if !(has0 && has1 && has2 && has3) {
        return String::from_str("echo 'Inconsistent Oracle arguments'");
    }
    let mut core = vector[2].clone();
    core.append("/");
    core.append(vector[3].as_str());
    core.append("@");
    core.append(vector[0].as_str());
    core.append(":");
    core.append(vector[1].as_str());
    if vector.len() > 4 {
        if !vector[4].as_str().is_empty() {
            core.append("/");
            core.append(vector[4].as_str());
        }
    }
    let has5 = vector.len() > 5 && !vector[5].as_str().is_empty();
    if has5 {
        let mut out = String::from_str("echo exit | sqlplus -s  ");
        out.append(core.as_str());
        out.append(" @");
        out.append(vector[5].as_str());
        out
    } else {
        let mut out = String::from_str("sqlplus ");
        out.append(core.as_str());
        out
    }
}

/// A part the trailing filter drops: an empty value, or a bare newline.
pub open spec fn is_blank_part(p: Seq<char>) -> bool {
    p.len() == 0 || p == "\n"@
}

/// The field values with trailing blanks removed, as handed to a builder.
pub open spec fn spec_trim_trailing(parts: Seq<Seq<char>>) -> Seq<Seq<char>>
    decreases parts.len(),
{
    if parts.len() == 0 {
        parts
    } else if is_blank_part(parts.last()) {
        spec_trim_trailing(parts.drop_last())
    } else {
        parts
    }
}

/// Drops trailing empty or newline-only values before a builder runs.
#[verifier::loop_isolation(false)]
pub fn filter_config(values: Vec<String>) -> (r: Vec<String>)
    ensures
        r.deep_view() == spec_trim_trailing(values.deep_view()),
{
    let ghost vs = values.deep_view();
    let mut v = values;
    loop
        invariant
            spec_trim_trailing(vs) == spec_trim_trailing(v.deep_view()),
        decreases v.len(),
    {
        if v.len() == 0 {
            proof {
                assert(v.deep_view().len() == 0);
                assert(spec_trim_trailing(v.deep_view()) == v.deep_view());
            }
            return v;
        }
        let last = &v[v.len() - 1];
        let blank = last.as_str().is_empty() || str_eq(last.as_str(), "\n");
        if !blank {
            proof {
                assert(v.deep_view().len() == v@.len());
                assert(v.deep_view().last() == v@[v@.len() - 1]@);
                assert(last@ == v@[v@.len() - 1]@);
                assert(!is_blank_part(v.deep_view().last()));
                assert(spec_trim_trailing(v.deep_view()) == v.deep_view());
            }
            return v;
        }
        let ghost dv = v.deep_view();
        v.pop();
        proof {
            assert(is_blank_part(dv.last()));
            assert(v.deep_view() =~= dv.drop_last());
        }
    }
}

} // verus!
