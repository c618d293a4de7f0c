//! REPL sessions: their configuration, the counts of evaluations, and the
//! text a session is saved as and read back from (the host program reads
//! and writes the file).

use vstd::prelude::*;

use crate::text::{
    before_char, chars_of, lemma_decimal_digits, lemma_lines_after_newline, lemma_prefix_len_key,
    lemma_trim_of_trimmed, lemma_decimal_round_trip, unsigned_digits, lines_after, owned, parse_usize, parsed_usize, prefix_len, spec_decimal,
    spec_is_whitespace, spec_lines, spec_trim, split_lines, str_eq, string_from_range, strings_view,
    strip_cr, trim, usize_to_string,
};

verus! {

/// Output format for REPL results.
#[derive(Debug, Clone, Copy, PartialEq, Eq, Structural)]
pub enum OutputFormat {
    /// Pretty-printed output
    Pretty,
    /// JSON output
    Json,
    /// Minimal output
    Minimal,
}

/// Configuration for a REPL session.
#[derive(Debug, Clone)]
pub struct SessionConfig {
    /// Session name
    pub name: String,
    /// Enable tree shaking
    pub tree_shaking: bool,
    /// Enable optimization
    pub optimize: bool,
    /// Include debug info
    pub debug_info: bool,
    /// Auto-save session
    pub auto_save: bool,
    /// Path of the session file (for persistence)
    pub session_file: Option<String>,
    /// Maximum history entries
    pub max_history: usize,
    /// Verbose output
    pub verbose: bool,
    /// Output format
    pub output_format: OutputFormat,
}

/// `c` holds the default settings, under the name `name`.
pub open spec fn is_default_config(c: SessionConfig, name: Seq<char>) -> bool {
    &&& c.name@ == name
    &&& c.tree_shaking
    &&& !c.optimize
    &&& c.debug_info
    &&& !c.auto_save
    &&& c.session_file is None
    &&& c.max_history == 1000
    &&& !c.verbose
    &&& c.output_format == OutputFormat::Pretty
}

/// `a` and `b` agree on every setting but those `changed` lets differ:
/// 0 tree shaking, 1 optimization, 2 debug info, 3 session file and auto
/// save, 4 verbosity.
pub open spec fn same_except(a: SessionConfig, b: SessionConfig, changed: nat) -> bool {
    &&& a.name@ == b.name@
    &&& changed != 0 ==> a.tree_shaking == b.tree_shaking
    &&& changed != 1 ==> a.optimize == b.optimize
    &&& changed != 2 ==> a.debug_info == b.debug_info
    &&& changed != 3 ==> a.auto_save == b.auto_save && a.session_file == b.session_file
    &&& a.max_history == b.max_history
    &&& changed != 4 ==> a.verbose == b.verbose
    &&& a.output_format == b.output_format
}

impl Default for SessionConfig {
    /// The default settings, named `default`.
    fn default() -> (r: SessionConfig)
        ensures
            is_default_config(r, "default"@),
    {
        SessionConfig {
            name: owned("default"),
            tree_shaking: true,
            optimize: false,
            debug_info: true,
            auto_save: false,
            session_file: None,
            max_history: 1000,
            verbose: false,
            output_format: OutputFormat::Pretty,
        }
    }
}

impl SessionConfig {
    /// Create a new session config with a name and the default settings.
    pub fn with_name(name: &str) -> (r: SessionConfig)
        ensures
            is_default_config(r, name@),
    {
        let mut c = SessionConfig::default();
        c.name = owned(name);
        c
    }

    /// Enable or disable tree shaking.
    pub fn with_tree_shaking(self, enable: bool) -> (r: SessionConfig)
        ensures
            r.tree_shaking == enable,
            same_except(r, self, 0),
    {
        let mut c = self;
        c.tree_shaking = enable;
        c
    }

    /// Enable or disable optimization.
    pub fn with_optimization(self, enable: bool) -> (r: SessionConfig)
        ensures
            r.optimize == enable,
            same_except(r, self, 1),
    {
        let mut c = self;
        c.optimize = enable;
        c
    }

    /// Enable or disable debug info.
    pub fn with_debug_info(self, enable: bool) -> (r: SessionConfig)
        ensures
            r.debug_info == enable,
            same_except(r, self, 2),
    {
        let mut c = self;
        c.debug_info = enable;
        c
    }

    /// Set the session file for persistence, which turns auto-save on.
    pub fn with_session_file(self, path: &str) -> (r: SessionConfig)
        ensures
            r.session_file matches Some(p) && p@ == path@,
            r.auto_save,
            same_except(r, self, 3),
    {
        let mut c = self;
        c.session_file = Some(owned(path));
        c.auto_save = true;
        c
    }

    /// Enable verbose output.
    pub fn verbose(self) -> (r: SessionConfig)
        ensures
            r.verbose,
            same_except(r, self, 4),
    {
        let mut c = self;
        c.verbose = true;
        c
    }
}

/// The clock reading `std::time::Instant`, carried without looking inside.
#[verifier::external_type_specification]
#[verifier::external_body]
pub struct ExInstant(std::time::Instant);

/// Calls `Instant::now`: the current time. Nothing is stated of it.
#[verifier::external_body]
fn now() -> (r: std::time::Instant) {
    std::time::Instant::now()
}

/// Calls `Instant::elapsed`: the time since `t`. Nothing is stated of it.
#[verifier::external_body]
fn elapsed(t: &std::time::Instant) -> (r: std::time::Duration) {
    t.elapsed()
}

/// The text a session is saved as: its name and counts, one `key=value`
/// line each.
pub open spec fn saved_text(name: Seq<char>, eval: nat, success: nat, error: nat) -> Seq<char> {
    "name="@ + name + "\neval_count="@ + spec_decimal(eval) + "\nsuccess_count="@ + spec_decimal(
        success,
    ) + "\nerror_count="@ + spec_decimal(error) + "\n"@
}

/// A number read from a saved value, or 0 when it is not one.
pub open spec fn number_or_zero(v: Seq<char>) -> nat {
    match parsed_usize(v) {
        Some(n) => n as nat,
        None => 0,
    }
}

/// The name and counts read from `lines` of a saved session: a line
/// `key=value` (split at its first `=`, both sides trimmed) sets the
/// named field, later lines winning; other lines are ignored.
pub open spec fn saved_state(lines: Seq<Seq<char>>) -> (Seq<char>, nat, nat, nat)
    decreases lines.len(),
{
    if lines.len() == 0 {
        ("loaded"@, 0, 0, 0)
    } else {
        let st = saved_state(lines.drop_last());
        let line = lines.last();
        let i = prefix_len(line, '=');
        if i >= line.len() {
            st
        } else {
            let key = spec_trim(line.take(i as int));
            let value = spec_trim(line.skip(i + 1int));
            if key == "name"@ {
                (value, st.1, st.2, st.3)
            } else if key == "eval_count"@ {
                (st.0, number_or_zero(value), st.2, st.3)
            } else if key == "success_count"@ {
                (st.0, st.1, number_or_zero(value), st.3)
            } else if key == "error_count"@ {
                (st.0, st.1, st.2, number_or_zero(value))
            } else {
                st
            }
        }
    }
}

/// Whether a name is read back as it was saved: no line break in it, and
/// no white space at either end.
pub open spec fn savable_name(nm: Seq<char>) -> bool {
    &&& forall|k: int| 0 <= k < nm.len() ==> nm[k] != '\n'
    &&& nm.len() > 0 ==> !spec_is_whitespace(nm[0]) && !spec_is_whitespace(nm.last())
}

/// The lines of a saved session's text.
spec fn saved_lines(nm: Seq<char>, e: nat, s: nat, er: nat) -> Seq<Seq<char>> {
    seq![
        "name"@ + seq!['='] + nm,
        "eval_count"@ + seq!['='] + spec_decimal(e),
        "success_count"@ + seq!['='] + spec_decimal(s),
        "error_count"@ + seq!['='] + spec_decimal(er),
    ]
}

/// The key of a `key=value` line, trimmed.
spec fn line_key(line: Seq<char>) -> Seq<char> {
    spec_trim(line.take(prefix_len(line, '=') as int))
}

/// The value of a `key=value` line, trimmed.
spec fn line_value(line: Seq<char>) -> Seq<char> {
    spec_trim(line.skip(prefix_len(line, '=') + 1int))
}

/// Whether `v`, if it is the decimal digits of a number that fits in
/// `usize`, is known to parse back to that number.
spec fn decimal_parse_known(v: Seq<char>) -> bool {
    forall|n: nat| n <= usize::MAX && v == #[trigger] spec_decimal(n) ==> parsed_usize(v) == Some(n as usize)
}

/// Every text is known to parse as above.
proof fn lemma_decimal_parse_known(v: Seq<char>)
    ensures
        decimal_parse_known(v),
{
    assert forall|n: nat| n <= usize::MAX && v == #[trigger] spec_decimal(n) implies parsed_usize(v)
        == Some(n as usize) by {
        lemma_decimal_round_trip(n);
        assert(unsigned_digits(v) == v);
    }
}

/// Whether a line that sets a count has a value known to parse as above.
spec fn line_parse_known(line: Seq<char>) -> bool {
    prefix_len(line, '=') < line.len() && (line_key(line) == "eval_count"@ || line_key(line)
        == "success_count"@ || line_key(line) == "error_count"@) ==> decimal_parse_known(
        line_value(line),
    )
}

/// A line `key=value` whose key holds no `=`, and whose key and value have
/// no white space at their ends, reads back as that key and value.
proof fn lemma_key_value_line(k: Seq<char>, v: Seq<char>)
    requires
        k.len() > 0,
        forall|j: int| 0 <= j < k.len() ==> k[j] != '=',
        !spec_is_whitespace(k[0]) && !spec_is_whitespace(k.last()),
        v.len() > 0 ==> !spec_is_whitespace(v[0]) && !spec_is_whitespace(v.last()),
    ensures
        prefix_len(k + seq!['='] + v, '=') == k.len(),
        line_key(k + seq!['='] + v) == k,
        line_value(k + seq!['='] + v) == v,
{
    let line = k + seq!['='] + v;
    lemma_prefix_len_key(k, v, '=');
    assert(line.take(k.len() as int) =~= k);
    assert(line.skip(k.len() + 1int) =~= v);
    lemma_trim_of_trimmed(k);
    lemma_trim_of_trimmed(v);
}

/// The text a session is saved as splits into its four lines.
proof fn lemma_saved_text_lines(nm: Seq<char>, e: nat, s: nat, er: nat)
    requires
        savable_name(nm),
    ensures
        spec_lines(saved_text(nm, e, s, er)) == saved_lines(nm, e, s, er),
{
    reveal_strlit("name=");
    reveal_strlit("name");
    reveal_strlit("\neval_count=");
    reveal_strlit("eval_count");
    reveal_strlit("\nsuccess_count=");
    reveal_strlit("success_count");
    reveal_strlit("\nerror_count=");
    reveal_strlit("error_count");
    reveal_strlit("\n");
    let ls = saved_lines(nm, e, s, er);
    let nl = seq!['\n'];
    let empty = Seq::<char>::empty();
    lemma_decimal_digits(e);
    lemma_decimal_digits(s);
    lemma_decimal_digits(er);
    let t4 = ls[3] + nl + empty;
    let t3 = ls[2] + nl + t4;
    let t2 = ls[1] + nl + t3;
    let t1 = ls[0] + nl + t2;
    assert(saved_text(nm, e, s, er) =~= t1);
    assert forall|k: int| 0 <= k < ls[0].len() implies ls[0][k] != '\n' by {
        if k >= 5 {
            assert(ls[0][k] == nm[k - 5]);
        }
    }
    lemma_lines_after_newline(ls[3], empty, empty);
    lemma_lines_after_newline(ls[2], t4, empty);
    lemma_lines_after_newline(ls[1], t3, empty);
    lemma_lines_after_newline(ls[0], t2, empty);
    assert forall|j: int| 0 <= j < 4 implies strip_cr(empty + #[trigger] ls[j]) == ls[j] by {
        assert(empty + ls[j] =~= ls[j]);
        if j == 0 && nm.len() > 0 {
            assert(ls[0].last() == nm.last());
        }
    }
    assert(lines_after(empty, empty) =~= Seq::<Seq<char>>::empty());
    assert(spec_lines(saved_text(nm, e, s, er)) =~= ls);
}

/// Reading the four lines of a saved session gives its name, and counts
/// read from the decimal digits it wrote; each count line is seen as one.
proof fn lemma_saved_lines_state(nm: Seq<char>, e: nat, s: nat, er: nat)
    requires
        savable_name(nm),
    ensures
        saved_state(saved_lines(nm, e, s, er)) == (
            nm,
            number_or_zero(spec_decimal(e)),
            number_or_zero(spec_decimal(s)),
            number_or_zero(spec_decimal(er)),
        ),
        line_value(saved_lines(nm, e, s, er)[1]) == spec_decimal(e),
        line_value(saved_lines(nm, e, s, er)[2]) == spec_decimal(s),
        line_value(saved_lines(nm, e, s, er)[3]) == spec_decimal(er),
        line_key(saved_lines(nm, e, s, er)[1]) == "eval_count"@,
        line_key(saved_lines(nm, e, s, er)[2]) == "success_count"@,
        line_key(saved_lines(nm, e, s, er)[3]) == "error_count"@,
        prefix_len(saved_lines(nm, e, s, er)[1], '=') < saved_lines(nm, e, s, er)[1].len(),
        prefix_len(saved_lines(nm, e, s, er)[2], '=') < saved_lines(nm, e, s, er)[2].len(),
        prefix_len(saved_lines(nm, e, s, er)[3], '=') < saved_lines(nm, e, s, er)[3].len(),
{
    reveal_strlit("name");
    reveal_strlit("eval_count");
    reveal_strlit("success_count");
    reveal_strlit("error_count");
    reveal_strlit("loaded");
    let ls = saved_lines(nm, e, s, er);
    lemma_decimal_digits(e);
    lemma_decimal_digits(s);
    lemma_decimal_digits(er);
    let de = spec_decimal(e);
    let ds = spec_decimal(s);
    let dr = spec_decimal(er);
    lemma_key_value_line("name"@, nm);
    lemma_key_value_line("eval_count"@, de);
    lemma_key_value_line("success_count"@, ds);
    lemma_key_value_line("error_count"@, dr);
    assert(ls.drop_last() =~= seq![ls[0], ls[1], ls[2]]);
    assert(ls.drop_last().drop_last() =~= seq![ls[0], ls[1]]);
    assert(ls.drop_last().drop_last().drop_last() =~= seq![ls[0]]);
    assert(ls.drop_last().drop_last().drop_last().drop_last() =~= Seq::<Seq<char>>::empty());
    assert("name"@ != "eval_count"@ && "name"@ != "success_count"@ && "name"@ != "error_count"@);
    assert("eval_count"@ != "success_count"@ && "eval_count"@ != "error_count"@);
    assert("success_count"@ != "error_count"@);
    let s1 = saved_state(seq![ls[0]]);
    assert(s1 == (nm, 0nat, 0nat, 0nat)) by {
        assert(seq![ls[0]].drop_last() =~= Seq::<Seq<char>>::empty());
        assert(seq![ls[0]].last() == ls[0]);
        assert(ls[0] == "name"@ + seq!['='] + nm);
        assert(line_key(ls[0]) == "name"@);
        assert(line_value(ls[0]) == nm);
        assert(prefix_len(ls[0], '=') < ls[0].len());
        assert(saved_state(Seq::<Seq<char>>::empty()) == ("loaded"@, 0nat, 0nat, 0nat));
    }
    let s2 = saved_state(seq![ls[0], ls[1]]);
    assert(s2 == (nm, number_or_zero(de), 0nat, 0nat)) by {
        assert(seq![ls[0], ls[1]].drop_last() =~= seq![ls[0]]);
    }
    let s3 = saved_state(seq![ls[0], ls[1], ls[2]]);
    assert(s3 == (nm, number_or_zero(de), number_or_zero(ds), 0nat)) by {
        assert(seq![ls[0], ls[1], ls[2]].drop_last() =~= seq![ls[0], ls[1]]);
    }
    assert(saved_state(ls) == (nm, number_or_zero(de), number_or_zero(ds), number_or_zero(dr)));
}

/// A REPL session with persistent state.
#[derive(Debug)]
pub struct ReplSession {
    config: SessionConfig,
    started_at: std::time::Instant,
    eval_count: usize,
    success_count: usize,
    error_count: usize,
}

impl ReplSession {
    /// The session's configuration.
    pub closed spec fn spec_config(&self) -> SessionConfig {
        self.config
    }

    /// The number of evaluations recorded.
    pub closed spec fn spec_eval_count(&self) -> nat {
        self.eval_count as nat
    }

    /// The number of successful evaluations recorded.
    pub closed spec fn spec_success_count(&self) -> nat {
        self.success_count as nat
    }

    /// The number of failed evaluations recorded.
    pub closed spec fn spec_error_count(&self) -> nat {
        self.error_count as nat
    }

    /// Every evaluation recorded is a success or an error.
    pub closed spec fn wf(&self) -> bool {
        self.success_count + self.error_count == self.eval_count
    }

    /// Create a new session with the default configuration.
    pub fn new() -> (r: ReplSession)
        ensures
            r.wf(),
            is_default_config(r.spec_config(), "default"@),
            r.spec_eval_count() == 0,
            r.spec_success_count() == 0,
            r.spec_error_count() == 0,
    {
        ReplSession::with_config(SessionConfig::default())
    }

    /// Create a session with a custom configuration.
    pub fn with_config(config: SessionConfig) -> (r: ReplSession)
        ensures
            r.wf(),
            r.spec_config() == config,
            r.spec_eval_count() == 0,
            r.spec_success_count() == 0,
            r.spec_error_count() == 0,
    {
        ReplSession {
            config,
            started_at: now(),
            eval_count: 0,
            success_count: 0,
            error_count: 0,
        }
    }

    /// Get the session configuration.
    pub fn config(&self) -> (r: &SessionConfig)
        ensures
            *r == self.spec_config(),
    {
        &self.config
    }

    /// Get the session configuration, to change it.
    pub fn config_mut(&mut self) -> (r: &mut SessionConfig)
        ensures
            *r == old(self).spec_config(),
            final(self).spec_config() == *final(r),
            final(self).spec_eval_count() == old(self).spec_eval_count(),
            final(self).spec_success_count() == old(self).spec_success_count(),
            final(self).spec_error_count() == old(self).spec_error_count(),
            final(self).wf() == old(self).wf(),
    {
        &mut self.config
    }

    /// Record a successful evaluation.
    pub fn record_success(&mut self)
        requires
            old(self).spec_eval_count() < usize::MAX,
            old(self).spec_success_count() < usize::MAX,
        ensures
            old(self).wf() ==> final(self).wf(),
            final(self).spec_eval_count() == old(self).spec_eval_count() + 1,
            final(self).spec_success_count() == old(self).spec_success_count() + 1,
            final(self).spec_error_count() == old(self).spec_error_count(),
            final(self).spec_config() == old(self).spec_config(),
    {
        self.eval_count = self.eval_count + 1;
        self.success_count = self.success_count + 1;
    }

    /// Record an error.
    pub fn record_error(&mut self)
        requires
            old(self).spec_eval_count() < usize::MAX,
            old(self).spec_error_count() < usize::MAX,
        ensures
            old(self).wf() ==> final(self).wf(),
            final(self).spec_eval_count() == old(self).spec_eval_count() + 1,
            final(self).spec_success_count() == old(self).spec_success_count(),
            final(self).spec_error_count() == old(self).spec_error_count() + 1,
            final(self).spec_config() == old(self).spec_config(),
    {
        self.eval_count = self.eval_count + 1;
        self.error_count = self.error_count + 1;
    }

    /// Get the time since the session started. It rests on the clock, so
    /// nothing is stated of it.
    pub fn duration(&self) -> (r: std::time::Duration) {
        elapsed(&self.started_at)
    }

    /// Get the evaluation count.
    pub fn eval_count(&self) -> (r: usize)
        ensures
            r == self.spec_eval_count(),
    {
        self.eval_count
    }

    /// Get the success count.
    pub fn success_count(&self) -> (r: usize)
        ensures
            r == self.spec_success_count(),
    {
        self.success_count
    }

    /// Get the error count.
    pub fn error_count(&self) -> (r: usize)
        ensures
            r == self.spec_error_count(),
    {
        self.error_count
    }
    /// The file a session is saved to and the text saved there; an error
    /// when no session file is configured.
    pub fn save_text(&self) -> (r: Result<(String, String), SessionError>)
        ensures
            match self.spec_config().session_file {
                None => r matches Err(SessionError::NoSessionFile),
                Some(p) => r matches Ok((path, text)) && path@ == p@ && text@ == saved_text(
                    self.spec_config().name@,
                    self.spec_eval_count(),
                    self.spec_success_count(),
                    self.spec_error_count(),
                ),
            },
    {
        match &self.config.session_file {
            None => Err(SessionError::NoSessionFile),
            Some(p) => {
                let mut text = owned("name=");
                text.append(self.config.name.as_str());
                text.append("\neval_count=");
                text.append(usize_to_string(self.eval_count).as_str());
                text.append("\nsuccess_count=");
                text.append(usize_to_string(self.success_count).as_str());
                text.append("\nerror_count=");
                text.append(usize_to_string(self.error_count).as_str());
                text.append("\n");
                Ok((p.clone(), text))
            },
        }
    }

    /// The session saved at `path` with text `content`: its name and
    /// counts as the text gives them, and a configuration that saves back
    /// to `path`.
    pub fn from_saved(path: &str, content: &str) -> (r: ReplSession)
        ensures
            ({
                let st = saved_state(spec_lines(content@));
                &&& r.spec_config().name@ == st.0
                &&& r.spec_config().session_file matches Some(p) && p@ == path@
                &&& r.spec_config().auto_save
                &&& r.spec_eval_count() == st.1
                &&& r.spec_success_count() == st.2
                &&& r.spec_error_count() == st.3
            }),
            forall|nm: Seq<char>, e: nat, s: nat, er: nat|
                #[trigger] saved_text(nm, e, s, er) == content@ && savable_name(nm) && e <= usize::MAX && s
                    <= usize::MAX && er <= usize::MAX ==> {
                    &&& r.spec_config().name@ == nm
                    &&& r.spec_eval_count() == e
                    &&& r.spec_success_count() == s
                    &&& r.spec_error_count() == er
                },
    {
        let lines = split_lines(content);
        let ghost ls = strings_view(lines@);
        let mut name = owned("loaded");
        let mut eval_count: usize = 0;
        let mut success_count: usize = 0;
        let mut error_count: usize = 0;
        let mut i: usize = 0;
        while i < lines.len()
            invariant
                i <= lines@.len(),
                ls == strings_view(lines@),
                ls == spec_lines(content@),
                (name@, eval_count as nat, success_count as nat, error_count as nat) == saved_state(
                    ls.take(i as int),
                ),
                forall|k: int| 0 <= k < i ==> line_parse_known(#[trigger] ls[k]),
            decreases lines.len() - i,
        {
            assert(ls.take(i + 1).drop_last() =~= ls.take(i as int));
            assert(ls.take(i + 1).last() == lines@[i as int]@);
            let line = lines[i].as_str();
            assert(line@ == ls[i as int]);
            proof {
                reveal_strlit("name");
                reveal_strlit("eval_count");
                reveal_strlit("success_count");
                reveal_strlit("error_count");
            }
            let key_part = before_char(line, '=');
            let lc = chars_of(line);
            let kc = chars_of(key_part.as_str());
            if kc.len() < lc.len() {
                let key = trim(key_part.as_str());
                let rest = string_from_range(&lc, kc.len() + 1, lc.len());
                assert(rest@ =~= line@.skip(kc.len() + 1));
                let value = trim(rest.as_str());
                assert(kc@.len() == prefix_len(line@, '='));
                assert(key@ == line_key(ls[i as int]));
                assert(value@ == line_value(ls[i as int]));
                let k = key.as_str();
                if str_eq(k, "name") {
                    name = value;
                } else if str_eq(k, "eval_count") {
                    let parsed = parse_usize(value.as_str());
                    proof {
                        lemma_decimal_parse_known(value@);
                    }
                    eval_count = match parsed {
                        Some(n) => n,
                        None => 0,
                    };
                } else if str_eq(k, "success_count") {
                    let parsed = parse_usize(value.as_str());
                    proof {
                        lemma_decimal_parse_known(value@);
                    }
                    success_count = match parsed {
                        Some(n) => n,
                        None => 0,
                    };
                } else if str_eq(k, "error_count") {
                    let parsed = parse_usize(value.as_str());
                    proof {
                        lemma_decimal_parse_known(value@);
                    }
                    error_count = match parsed {
                        Some(n) => n,
                        None => 0,
                    };
                }
            } else {
                assert(kc@.len() == prefix_len(line@, '='));
            }
            assert(line_parse_known(ls[i as int]));
            i = i + 1;
        }
        assert(ls.take(lines.len() as int) =~= ls);
        assert forall|nm: Seq<char>, e: nat, s: nat, er: nat|
            #[trigger] saved_text(nm, e, s, er) == content@ && savable_name(nm) && e <= usize::MAX && s
                <= usize::MAX && er <= usize::MAX implies {
            &&& name@ == nm
            &&& eval_count == e
            &&& success_count == s
            &&& error_count == er
        } by {
            lemma_saved_text_lines(nm, e, s, er);
            lemma_saved_lines_state(nm, e, s, er);
            assert(line_parse_known(ls[1]));
            assert(line_parse_known(ls[2]));
            assert(line_parse_known(ls[3]));
            assert(parsed_usize(spec_decimal(e)) == Some(e as usize));
            assert(parsed_usize(spec_decimal(s)) == Some(s as usize));
            assert(parsed_usize(spec_decimal(er)) == Some(er as usize));
        }
        let config = SessionConfig::with_name(name.as_str()).with_session_file(path);
        ReplSession { config, started_at: now(), eval_count, success_count, error_count }
    }
}

impl Default for ReplSession {
    /// A new session with the default configuration.
    fn default() -> (r: ReplSession)
        ensures
            r.wf(),
            is_default_config(r.spec_config(), "default"@),
            r.spec_eval_count() == 0,
    {
        ReplSession::new()
    }
}

/// Session error types.
#[derive(Debug, Clone)]
pub enum SessionError {
    /// No session file configured
    NoSessionFile,
    /// I/O error
    Io(String),
    /// Parse error
    Parse(String),
}

impl SessionError {
    /// The error's message.
    pub open spec fn spec_message(&self) -> Seq<char> {
        match self {
            SessionError::NoSessionFile => "No session file configured"@,
            SessionError::Io(m) => "I/O error: "@ + m@,
            SessionError::Parse(m) => "Parse error: "@ + m@,
        }
    }

    /// The error's message, as displayed.
    pub fn message(&self) -> (r: String)
        ensures
            r@ == self.spec_message(),
    {
        match self {
            SessionError::NoSessionFile => owned("No session file configured"),
            SessionError::Io(m) => {
                let mut s = owned("I/O error: ");
                s.append(m.as_str());
                s
            },
            SessionError::Parse(m) => {
                let mut s = owned("Parse error: ");
                s.append(m.as_str());
                s
            },
        }
    }
}

/// Every recorded evaluation counts once, as a success or as an error.
pub proof fn lemma_counts_add_up(s: ReplSession)
    requires
        s.wf(),
    ensures
        s.spec_success_count() + s.spec_error_count() == s.spec_eval_count(),
{
}

} // verus!
