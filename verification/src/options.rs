//! The options record, the two text formats it can be written in and read
//! from, and the config-file override pipeline.
//!
//! The formats are fixed-shape: a JSON object with the four fields in
//! declaration order, and a line-based form with one `key: value` line per
//! field. Each serializer emits a canonical text and refuses a record whose
//! strings would collide with the format's delimiters; each parser accepts
//! exactly the canonical texts. Serializing and then parsing reproduces the
//! record.

use vstd::prelude::*;
use crate::digits::{int_digits, spec_parse_int, i64_to_dec, parse_int, lemma_parse_int_at, is_digit};
use crate::scan::{
    lit_at,
    scan_to,
    text_has_no,
    has_lit_at,
    find_char,
    contains_char,
    str_eq,
    lemma_scan_to_found,
};

verus! {

/// The flat configuration record, populated once at startup and optionally
/// replaced wholesale by a config file's contents.
#[derive(Debug)]
pub struct Opts {
    /// Target hostname; the database operations never read it.
    pub target_host: String,
    /// Database connection string; its prefix selects the backend.
    pub db: String,
    /// Path of an optional file whose contents replace all options.
    pub options_override: Option<String>,
    /// Verbosity level; five or more dumps the effective options.
    pub verbose: i32,
}

/// The mathematical value of an options record.
pub ghost struct OptsView {
    pub target_host: Seq<char>,
    pub db: Seq<char>,
    pub options_override: Option<Seq<char>>,
    pub verbose: int,
}

impl View for Opts {
    type V = OptsView;

    open spec fn view(&self) -> OptsView {
        OptsView {
            target_host: self.target_host@,
            db: self.db@,
            options_override: match self.options_override {
                Some(p) => Some(p@),
                None => None,
            },
            verbose: self.verbose as int,
        }
    }
}

/// Verbosity at or above this level dumps the effective options.
pub const DUMP_VERBOSITY: i32 = 5;

/// Whether a verbosity level asks for the options dump.
pub fn should_dump_options(verbose: i32) -> (r: bool)
    ensures
        r == (verbose >= DUMP_VERBOSITY),
{
    verbose >= DUMP_VERBOSITY
}

/// The opening of the JSON form, up to the first value.
pub open spec fn json_l1() -> Seq<char> {
    "{\"target_host\":\""@
}

/// The JSON text between the first and the second value.
pub open spec fn json_l2() -> Seq<char> {
    "\",\"db\":\""@
}

/// The JSON text between the second and the third value.
pub open spec fn json_l3() -> Seq<char> {
    "\",\"options_override\":"@
}

/// The JSON spelling of an absent override path.
pub open spec fn json_null() -> Seq<char> {
    "null"@
}

/// The JSON text between the third and the fourth value.
pub open spec fn json_l4() -> Seq<char> {
    ",\"verbose\":"@
}

/// The closing of the JSON form.
pub open spec fn json_end() -> Seq<char> {
    "}"@
}

/// A double quote as a one-character text.
pub open spec fn json_quote() -> Seq<char> {
    "\""@
}

/// The canonical JSON form of an options record.
pub open spec fn json_text(v: OptsView) -> Seq<char> {
    json_l1() + v.target_host + json_l2() + v.db + json_l3() + (match v.options_override {
        None => json_null(),
        Some(p) => json_quote() + p + json_quote(),
    }) + json_l4() + int_digits(v.verbose) + json_end()
}

/// A record the JSON form can carry faithfully: no string value holds a
/// quote or a backslash, and the verbosity is a 32-bit value.
pub open spec fn json_safe(v: OptsView) -> bool {
    &&& text_has_no(v.target_host, '"')
    &&& text_has_no(v.target_host, '\\')
    &&& text_has_no(v.db, '"')
    &&& text_has_no(v.db, '\\')
    &&& (v.options_override matches Some(p) ==> text_has_no(p, '"') && text_has_no(p, '\\'))
    &&& i32::MIN <= v.verbose <= i32::MAX
}

/// The tail of the JSON parse: the verbose field and the closing brace,
/// with the values read so far.
pub open spec fn parse_json_tail(
    s: Seq<char>,
    i: int,
    th: Seq<char>,
    db: Seq<char>,
    ovr: Option<Seq<char>>,
) -> Option<OptsView> {
    if lit_at(s, i, json_l4()) {
        match spec_parse_int(s, i + json_l4().len()) {
            Some(vj) => {
                if lit_at(s, vj.1, json_end()) && vj.1 + json_end().len() == s.len()
                    && i32::MIN <= vj.0 <= i32::MAX {
                    Some(
                        OptsView {
                            target_host: th,
                            db: db,
                            options_override: ovr,
                            verbose: vj.0,
                        },
                    )
                } else {
                    None
                }
            },
            None => None,
        }
    } else {
        None
    }
}

/// The record a text holds when read as the canonical JSON form.
pub open spec fn parse_json(s: Seq<char>) -> Option<OptsView> {
    if lit_at(s, 0, json_l1()) {
        let i1 = json_l1().len() as int;
        match scan_to(s, i1, '"') {
            Some(e1) => {
                let th = s.subrange(i1, e1);
                if lit_at(s, e1, json_l2()) {
                    let i2 = e1 + json_l2().len();
                    match scan_to(s, i2, '"') {
                        Some(e2) => {
                            let db = s.subrange(i2, e2);
                            if lit_at(s, e2, json_l3()) {
                                let i3 = e2 + json_l3().len();
                                if lit_at(s, i3, json_null()) {
                                    parse_json_tail(s, i3 + json_null().len(), th, db, None)
                                } else if lit_at(s, i3, json_quote()) {
                                    match scan_to(s, i3 + 1, '"') {
                                        Some(e3) => parse_json_tail(
                                            s,
                                            e3 + 1,
                                            th,
                                            db,
                                            Some(s.subrange(i3 + 1, e3)),
                                        ),
                                        None => None,
                                    }
                                } else {
                                    None
                                }
                            } else {
                                None
                            }
                        },
                        None => None,
                    }
                } else {
                    None
                }
            },
            None => None,
        }
    } else {
        None
    }
}

/// Writes an options record in the canonical JSON form, or reports that the
/// record cannot be carried faithfully.
pub fn opts_to_json(o: &Opts) -> (r: Option<String>)
    ensures
        r matches Some(s) ==> json_safe(o@) && s@ == json_text(o@),
        r is None ==> !json_safe(o@),
{
    if contains_char(o.target_host.as_str(), '"') || contains_char(o.target_host.as_str(), '\\') {
        return None;
    }
    if contains_char(o.db.as_str(), '"') || contains_char(o.db.as_str(), '\\') {
        return None;
    }
    match &o.options_override {
        Some(p) => {
            if contains_char(p.as_str(), '"') || contains_char(p.as_str(), '\\') {
                return None;
            }
        },
        None => {},
    }
    let mut out = "{\"target_host\":\"".to_owned();
    out.append(o.target_host.as_str());
    out.append("\",\"db\":\"");
    out.append(o.db.as_str());
    out.append("\",\"options_override\":");
    match &o.options_override {
        None => out.append("null"),
        Some(p) => {
            out.append("\"");
            out.append(p.as_str());
            out.append("\"");
        },
    }
    out.append(",\"verbose\":");
    let d = i64_to_dec(o.verbose as i64);
    out.append(d.as_str());
    out.append("}");
    proof {
        assert(out@ =~= json_text(o@));
    }
    Some(out)
}

/// Reads an options record from the canonical JSON form.
pub fn parse_opts_json(s: &str) -> (r: Option<Opts>)
    ensures
        r matches Some(o) ==> parse_json(s@) == Some(o@),
        r is None ==> parse_json(s@) is None,
{
    let n = s.unicode_len();
    let l1 = "{\"target_host\":\"";
    if !has_lit_at(s, 0, l1) {
        return None;
    }
    let i1 = l1.unicode_len();
    let e1 = match find_char(s, i1, '"') {
        Some(e) => e,
        None => {
            return None;
        },
    };
    let th = s.substring_char(i1, e1).to_owned();
    let l2 = "\",\"db\":\"";
    if !has_lit_at(s, e1, l2) {
        return None;
    }
    let i2 = e1 + l2.unicode_len();
    let e2 = match find_char(s, i2, '"') {
        Some(e) => e,
        None => {
            return None;
        },
    };
    let db = s.substring_char(i2, e2).to_owned();
    let l3 = "\",\"options_override\":";
    if !has_lit_at(s, e2, l3) {
        return None;
    }
    let i3 = e2 + l3.unicode_len();
    let null_lit = "null";
    let quote_lit = "\"";
    let ovr: Option<String>;
    let i4: usize;
    if has_lit_at(s, i3, null_lit) {
        ovr = None;
        i4 = i3 + null_lit.unicode_len();
    } else if has_lit_at(s, i3, quote_lit) {
        proof {
            reveal_strlit("\"");
        }
        let e3 = match find_char(s, i3 + 1, '"') {
            Some(e) => e,
            None => {
                return None;
            },
        };
        ovr = Some(s.substring_char(i3 + 1, e3).to_owned());
        i4 = e3 + 1;
    } else {
        return None;
    }
    let l4 = ",\"verbose\":";
    if !has_lit_at(s, i4, l4) {
        return None;
    }
    let i5 = i4 + l4.unicode_len();
    let (v, j) = match parse_int(s, i5) {
        Some(p) => p,
        None => {
            return None;
        },
    };
    let end_lit = "}";
    if !(has_lit_at(s, j, end_lit) && j + end_lit.unicode_len() == n) {
        return None;
    }
    if v < -2147483648 || v > 2147483647 {
        return None;
    }
    Some(Opts { target_host: th, db, options_override: ovr, verbose: v as i32 })
}

/// Round trip: a record the JSON form can carry faithfully, written in that
/// form and read back, is reproduced exactly.
#[verifier::rlimit(100)]
pub proof fn lemma_json_round_trip(v: OptsView)
    requires
        json_safe(v),
    ensures
        parse_json(json_text(v)) == Some(v),
{
    reveal_strlit("{\"target_host\":\"");
    reveal_strlit("\",\"db\":\"");
    reveal_strlit("\",\"options_override\":");
    reveal_strlit("null");
    reveal_strlit(",\"verbose\":");
    reveal_strlit("}");
    reveal_strlit("\"");
    let s = json_text(v);
    let th = v.target_host;
    let db = v.db;
    let dig = int_digits(v.verbose);
    let ov: Seq<char> = match v.options_override {
        None => json_null(),
        Some(p) => json_quote() + p + json_quote(),
    };
    let a1 = json_l1().len() as int;
    let e1 = a1 + th.len() as int;
    let i2 = e1 + json_l2().len() as int;
    let e2 = i2 + db.len() as int;
    let i3 = e2 + json_l3().len() as int;
    let i4 = i3 + ov.len() as int;
    let i5 = i4 + json_l4().len() as int;
    let j = i5 + dig.len() as int;
    assert(s.len() == j + 1);
    assert(s.subrange(0, a1) =~= json_l1());
    assert(lit_at(s, 0, json_l1()));
    assert(s[e1] == json_l2()[0]);
    assert(s[e1] == '"');
    assert forall|k: int| a1 <= k < e1 implies s[k] != '"' by {
        assert(s[k] == th[k - a1]);
    }
    lemma_scan_to_found(s, a1, e1, '"');
    assert(s.subrange(a1, e1) =~= th);
    assert(s.subrange(e1, i2) =~= json_l2());
    assert(lit_at(s, e1, json_l2()));
    assert(s[e2] == json_l3()[0]);
    assert(s[e2] == '"');
    assert forall|k: int| i2 <= k < e2 implies s[k] != '"' by {
        assert(s[k] == db[k - i2]);
    }
    lemma_scan_to_found(s, i2, e2, '"');
    assert(s.subrange(i2, e2) =~= db);
    assert(s.subrange(e2, i3) =~= json_l3());
    assert(lit_at(s, e2, json_l3()));
    match v.options_override {
        None => {
            assert(s.subrange(i3, i4) =~= json_null());
            assert(lit_at(s, i3, json_null()));
        },
        Some(p) => {
            assert(s[i3] == ov[0]);
            assert(s[i3] == '"');
            if lit_at(s, i3, json_null()) {
                assert(s.subrange(i3, i3 + json_null().len() as int)[0] == s[i3]);
            }
            assert(s.subrange(i3, i3 + 1) =~= json_quote());
            assert(lit_at(s, i3, json_quote()));
            let e3 = i3 + 1 + p.len() as int;
            assert(s[e3] == ov[1 + p.len() as int]);
            assert(s[e3] == '"');
            assert forall|k: int| i3 + 1 <= k < e3 implies s[k] != '"' by {
                assert(s[k] == ov[k - i3]);
                assert(ov[k - i3] == p[k - i3 - 1]);
            }
            lemma_scan_to_found(s, i3 + 1, e3, '"');
            assert(s.subrange(i3 + 1, e3) =~= p);
        },
    }
    assert(s.subrange(i4, i5) =~= json_l4());
    assert(lit_at(s, i4, json_l4()));
    assert forall|k: int| 0 <= k < dig.len() implies s[i5 + k] == #[trigger] dig[k] by {
    }
    assert(s[j] == json_end()[0]);
    assert(!is_digit(s[j]));
    lemma_parse_int_at(s, i5, v.verbose);
    assert(s.subrange(j, j + 1) =~= json_end());
    assert(lit_at(s, j, json_end()));
    assert(parse_json(s) == Some(v));
}

/// The opening of the first line of the line-based form.
pub open spec fn yaml_l1() -> Seq<char> {
    "target_host: "@
}

/// The break after the first value and the opening of the second line.
pub open spec fn yaml_l2() -> Seq<char> {
    "\ndb: "@
}

/// The break after the second value and the opening of the third line.
pub open spec fn yaml_l3() -> Seq<char> {
    "\noptions_override: "@
}

/// The break after the third value and the opening of the fourth line.
pub open spec fn yaml_l4() -> Seq<char> {
    "\nverbose: "@
}

/// The break that closes the last line.
pub open spec fn yaml_end() -> Seq<char> {
    "\n"@
}

/// The line-based spelling of an absent override path.
pub open spec fn yaml_null() -> Seq<char> {
    "null"@
}

/// The canonical line-based form of an options record.
pub open spec fn yaml_text(v: OptsView) -> Seq<char> {
    yaml_l1() + v.target_host + yaml_l2() + v.db + yaml_l3() + (match v.options_override {
        None => yaml_null(),
        Some(p) => p,
    }) + yaml_l4() + int_digits(v.verbose) + yaml_end()
}

/// A record the line-based form can carry faithfully: no string value holds
/// a line break, the override path is not spelled like the absent marker,
/// and the verbosity is a 32-bit value.
pub open spec fn yaml_safe(v: OptsView) -> bool {
    &&& text_has_no(v.target_host, '\n')
    &&& text_has_no(v.db, '\n')
    &&& (v.options_override matches Some(p) ==> text_has_no(p, '\n') && p != yaml_null())
    &&& i32::MIN <= v.verbose <= i32::MAX
}

/// The record a text holds when read as the canonical line-based form.
pub open spec fn parse_yaml(s: Seq<char>) -> Option<OptsView> {
    if lit_at(s, 0, yaml_l1()) {
        let i1 = yaml_l1().len() as int;
        match scan_to(s, i1, '\n') {
            Some(e1) => {
                let th = s.subrange(i1, e1);
                if lit_at(s, e1, yaml_l2()) {
                    let i2 = e1 + yaml_l2().len();
                    match scan_to(s, i2, '\n') {
                        Some(e2) => {
                            let db = s.subrange(i2, e2);
                            if lit_at(s, e2, yaml_l3()) {
                                let i3 = e2 + yaml_l3().len();
                                match scan_to(s, i3, '\n') {
                                    Some(e3) => {
                                        let seg = s.subrange(i3, e3);
                                        let ovr: Option<Seq<char>> = if seg == yaml_null() {
                                            None
                                        } else {
                                            Some(seg)
                                        };
                                        parse_yaml_tail(s, e3, th, db, ovr)
                                    },
                                    None => None,
                                }
                            } else {
                                None
                            }
                        },
                        None => None,
                    }
                } else {
                    None
                }
            },
            None => None,
        }
    } else {
        None
    }
}

/// The tail of the line-based parse: the verbose line, with the values read
/// so far.
pub open spec fn parse_yaml_tail(
    s: Seq<char>,
    i: int,
    th: Seq<char>,
    db: Seq<char>,
    ovr: Option<Seq<char>>,
) -> Option<OptsView> {
    if lit_at(s, i, yaml_l4()) {
        match spec_parse_int(s, i + yaml_l4().len()) {
            Some(vj) => {
                if lit_at(s, vj.1, yaml_end()) && vj.1 + yaml_end().len() == s.len()
                    && i32::MIN <= vj.0 <= i32::MAX {
                    Some(
                        OptsView {
                            target_host: th,
                            db: db,
                            options_override: ovr,
                            verbose: vj.0,
                        },
                    )
                } else {
                    None
                }
            },
            None => None,
        }
    } else {
        None
    }
}

/// Writes an options record in the canonical line-based form, or reports
/// that the record cannot be carried faithfully.
pub fn opts_to_yaml(o: &Opts) -> (r: Option<String>)
    ensures
        r matches Some(s) ==> yaml_safe(o@) && s@ == yaml_text(o@),
        r is None ==> !yaml_safe(o@),
{
    if contains_char(o.target_host.as_str(), '\n') || contains_char(o.db.as_str(), '\n') {
        return None;
    }
    match &o.options_override {
        Some(p) => {
            if contains_char(p.as_str(), '\n') || str_eq(p.as_str(), "null") {
                return None;
            }
        },
        None => {},
    }
    let mut out = "target_host: ".to_owned();
    out.append(o.target_host.as_str());
    out.append("\ndb: ");
    out.append(o.db.as_str());
    out.append("\noptions_override: ");
    match &o.options_override {
        None => out.append("null"),
        Some(p) => out.append(p.as_str()),
    }
    out.append("\nverbose: ");
    let d = i64_to_dec(o.verbose as i64);
    out.append(d.as_str());
    out.append("\n");
    proof {
        assert(out@ =~= yaml_text(o@));
    }
    Some(out)
}

/// Reads an options record from the canonical line-based form.
pub fn parse_opts_yaml(s: &str) -> (r: Option<Opts>)
    ensures
        r matches Some(o) ==> parse_yaml(s@) == Some(o@),
        r is None ==> parse_yaml(s@) is None,
{
    let n = s.unicode_len();
    let l1 = "target_host: ";
    if !has_lit_at(s, 0, l1) {
        return None;
    }
    let i1 = l1.unicode_len();
    let e1 = match find_char(s, i1, '\n') {
        Some(e) => e,
        None => {
            return None;
        },
    };
    let th = s.substring_char(i1, e1).to_owned();
    let l2 = "\ndb: ";
    if !has_lit_at(s, e1, l2) {
        return None;
    }
    let i2 = e1 + l2.unicode_len();
    let e2 = match find_char(s, i2, '\n') {
        Some(e) => e,
        None => {
            return None;
        },
    };
    let db = s.substring_char(i2, e2).to_owned();
    let l3 = "\noptions_override: ";
    if !has_lit_at(s, e2, l3) {
        return None;
    }
    let i3 = e2 + l3.unicode_len();
    let e3 = match find_char(s, i3, '\n') {
        Some(e) => e,
        None => {
            return None;
        },
    };
    let seg = s.substring_char(i3, e3);
    let ovr: Option<String> = if str_eq(seg, "null") {
        None
    } else {
        Some(seg.to_owned())
    };
    let l4 = "\nverbose: ";
    if !has_lit_at(s, e3, l4) {
        return None;
    }
    let i4 = e3 + l4.unicode_len();
    let (v, j) = match parse_int(s, i4) {
        Some(p) => p,
        None => {
            return None;
        },
    };
    let end_lit = "\n";
    if !(has_lit_at(s, j, end_lit) && j + end_lit.unicode_len() == n) {
        return None;
    }
    if v < -2147483648 || v > 2147483647 {
        return None;
    }
    Some(Opts { target_host: th, db, options_override: ovr, verbose: v as i32 })
}

/// Round trip: a record the line-based form can carry faithfully, written
/// in that form and read back, is reproduced exactly.
#[verifier::rlimit(100)]
pub proof fn lemma_yaml_round_trip(v: OptsView)
    requires
        yaml_safe(v),
    ensures
        parse_yaml(yaml_text(v)) == Some(v),
{
    reveal_strlit("target_host: ");
    reveal_strlit("\ndb: ");
    reveal_strlit("\noptions_override: ");
    reveal_strlit("null");
    reveal_strlit("\nverbose: ");
    reveal_strlit("\n");
    let s = yaml_text(v);
    let th = v.target_host;
    let db = v.db;
    let dig = int_digits(v.verbose);
    let seg: Seq<char> = match v.options_override {
        None => yaml_null(),
        Some(p) => p,
    };
    let a1 = yaml_l1().len() as int;
    let e1 = a1 + th.len() as int;
    let i2 = e1 + yaml_l2().len() as int;
    let e2 = i2 + db.len() as int;
    let i3 = e2 + yaml_l3().len() as int;
    let e3 = i3 + seg.len() as int;
    let i4 = e3 + yaml_l4().len() as int;
    let j = i4 + dig.len() as int;
    assert(s.len() == j + 1);
    assert(s.subrange(0, a1) =~= yaml_l1());
    assert(lit_at(s, 0, yaml_l1()));
    assert(s[e1] == yaml_l2()[0]);
    assert(s[e1] == '\n');
    assert forall|k: int| a1 <= k < e1 implies s[k] != '\n' by {
        assert(s[k] == th[k - a1]);
    }
    lemma_scan_to_found(s, a1, e1, '\n');
    assert(s.subrange(a1, e1) =~= th);
    assert(s.subrange(e1, i2) =~= yaml_l2());
    assert(lit_at(s, e1, yaml_l2()));
    assert(s[e2] == yaml_l3()[0]);
    assert(s[e2] == '\n');
    assert forall|k: int| i2 <= k < e2 implies s[k] != '\n' by {
        assert(s[k] == db[k - i2]);
    }
    lemma_scan_to_found(s, i2, e2, '\n');
    assert(s.subrange(i2, e2) =~= db);
    assert(s.subrange(e2, i3) =~= yaml_l3());
    assert(lit_at(s, e2, yaml_l3()));
    assert(s[e3] == yaml_l4()[0]);
    assert(s[e3] == '\n');
    assert forall|k: int| i3 <= k < e3 implies s[k] != '\n' by {
        assert(s[k] == seg[k - i3]);
    }
    lemma_scan_to_found(s, i3, e3, '\n');
    assert(s.subrange(i3, e3) =~= seg);
    assert(s.subrange(e3, i4) =~= yaml_l4());
    assert(lit_at(s, e3, yaml_l4()));
    assert forall|k: int| 0 <= k < dig.len() implies s[i4 + k] == #[trigger] dig[k] by {
    }
    assert(s[j] == yaml_end()[0]);
    assert(!is_digit(s[j]));
    lemma_parse_int_at(s, i4, v.verbose);
    assert(s.subrange(j, j + 1) =~= yaml_end());
    assert(lit_at(s, j, yaml_end()));
    assert(parse_yaml(s) == Some(v));
}

/// What the override pipeline decides: no file contents keep the
/// command-line options; contents that read as the JSON form, or failing
/// that as the line-based form, replace them wholesale; contents that read
/// as neither are a fatal error.
pub open spec fn spec_effective(cli: OptsView, contents: Option<Seq<char>>) -> Option<OptsView> {
    match contents {
        None => Some(cli),
        Some(text) => match parse_json(text) {
            Some(v) => Some(v),
            None => match parse_yaml(text) {
                Some(v) => Some(v),
                None => None,
            },
        },
    }
}

/// Applies the config-file override pipeline: try the JSON form first, then
/// the line-based form, and keep the command-line options only when there
/// were no contents to read.
/// A config file written in the JSON form replaces the command-line options
/// with exactly the record it holds, whatever the command line said.
pub proof fn lemma_effective_json_override(cli: OptsView, v: OptsView)
    requires
        json_safe(v),
    ensures
        spec_effective(cli, Some(json_text(v))) == Some(v),
{
    lemma_json_round_trip(v);
}

/// A config file written in the line-based form replaces the command-line
/// options with exactly the record it holds: it never reads as the JSON
/// form, so the fallback order cannot mix the two.
pub proof fn lemma_effective_yaml_override(cli: OptsView, v: OptsView)
    requires
        yaml_safe(v),
    ensures
        spec_effective(cli, Some(yaml_text(v))) == Some(v),
{
    reveal_strlit("target_host: ");
    reveal_strlit("{\"target_host\":\"");
    lemma_yaml_round_trip(v);
    let s = yaml_text(v);
    assert(s[0] == yaml_l1()[0]);
    if lit_at(s, 0, json_l1()) {
        assert(s.subrange(0, json_l1().len() as int)[0] == s[0]);
    }
}

pub fn effective_options(cli: Opts, contents: Option<&str>) -> (r: Option<Opts>)
    ensures
        r matches Some(o) ==> spec_effective(
            cli@,
            match contents {
                Some(t) => Some(t@),
                None => None,
            },
        ) == Some(o@),
        r is None ==> spec_effective(
            cli@,
            match contents {
                Some(t) => Some(t@),
                None => None,
            },
        ) is None,
{
    match contents {
        None => Some(cli),
        Some(text) => match parse_opts_json(text) {
            Some(o) => Some(o),
            None => match parse_opts_yaml(text) {
                Some(o) => Some(o),
                None => None,
            },
        },
    }
}

} // verus!
