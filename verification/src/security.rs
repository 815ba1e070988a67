//! Schema validation of job documents and the command security policy.
//!
//! Both are pure functions of the configuration and the input. Validation
//! failures and policy rejections short-circuit to a failed status without
//! anything being executed.

use vstd::prelude::*;
use vstd::seq_lib::*;
use vstd::string::StringExecFns;
use crate::config::SecurityConfig;
use crate::error::DeviceOpsError;
use crate::models::{Command, JobDocument, JobStep};
use crate::text::{
    chars_blank,
    chars_contain,
    chars_contain_char,
    lower_char,
    spec_contains,
    spec_is_blank,
    spec_split,
    split_chars,
    str_chars,
    to_lower_chars,
};

verus! {

// ===========================================================================
// Job document validation
// ===========================================================================
/// A step is well-formed: the one supported action kind, a command that is
/// neither blank nor over 4096 characters, and a timeout override (when
/// present) within [1, 86400] seconds.
pub open spec fn spec_step_valid(step: JobStep) -> bool {
    &&& step.action.action_type@ == "runCommand"@
    &&& step.action.input.command@.len() <= 4096
    &&& !spec_is_blank(step.action.input.command@)
    &&& match step.action.input.timeout {
        Some(t) => 1 <= t <= 86400,
        None => true,
    }
}

/// The reason reported for a malformed step: the first failing check, in the
/// order the checks run.
pub open spec fn spec_step_error(step: JobStep) -> Seq<char> {
    if step.action.action_type@ != "runCommand"@ {
        "Unsupported action type: "@ + step.action.action_type@
            + ". Only 'runCommand' is supported"@
    } else if step.action.input.command@.len() > 4096 {
        "Command too long (max 4096 characters)"@
    } else if spec_is_blank(step.action.input.command@) {
        "Command cannot be empty"@
    } else {
        "Timeout must be between 1 and 86400 seconds (24 hours)"@
    }
}

/// Every step of the document, the final step last.
pub open spec fn spec_all_steps(doc: JobDocument) -> Seq<JobStep> {
    match doc.final_step {
        Some(f) => doc.steps@.push(f),
        None => doc.steps@,
    }
}

/// The reason reported for the first malformed step, if any.
pub open spec fn spec_steps_error(steps: Seq<JobStep>) -> Option<Seq<char>>
    decreases steps.len(),
{
    if steps.len() == 0 {
        None
    } else if !spec_step_valid(steps[0]) {
        Some(spec_step_error(steps[0]))
    } else {
        spec_steps_error(steps.drop_first())
    }
}

/// The reason a document is rejected, if any: wrong schema version, then an
/// empty step list, then the first malformed step.
pub open spec fn spec_document_error(doc: JobDocument) -> Option<Seq<char>> {
    if doc.version@ != "1.0"@ {
        Some("Unsupported job document version: "@ + doc.version@)
    } else if doc.steps@.len() == 0 {
        Some("Job document has no steps"@)
    } else {
        spec_steps_error(spec_all_steps(doc))
    }
}

/// A document is well-formed: the supported version, at least one step, and
/// every step (final step included) well-formed.
pub open spec fn spec_document_valid(doc: JobDocument) -> bool {
    &&& doc.version@ == "1.0"@
    &&& doc.steps@.len() > 0
    &&& forall|i: int|
        0 <= i < spec_all_steps(doc).len() ==> spec_step_valid(#[trigger] spec_all_steps(doc)[i])
}

/// No step of a fully valid list is reported malformed.
proof fn lemma_steps_error_none(steps: Seq<JobStep>)
    requires
        forall|i: int| 0 <= i < steps.len() ==> spec_step_valid(#[trigger] steps[i]),
    ensures
        spec_steps_error(steps) is None,
    decreases steps.len(),
{
    if steps.len() > 0 {
        assert(spec_step_valid(steps[0]));
        lemma_steps_error_none(steps.drop_first());
    }
}

/// The reported reason is the first malformed step's reason.
proof fn lemma_steps_error_at(steps: Seq<JobStep>, i: int)
    requires
        0 <= i < steps.len(),
        forall|k: int| 0 <= k < i ==> spec_step_valid(#[trigger] steps[k]),
        !spec_step_valid(steps[i]),
    ensures
        spec_steps_error(steps) == Some(spec_step_error(steps[i])),
    decreases i,
{
    if i > 0 {
        assert(spec_step_valid(steps[0]));
        lemma_steps_error_at(steps.drop_first(), i - 1);
    }
}

/// A document is rejected exactly when it is not well-formed.
pub proof fn lemma_document_error_none_iff_valid(doc: JobDocument)
    ensures
        spec_document_error(doc) is None <==> spec_document_valid(doc),
{
    if doc.version@ == "1.0"@ && doc.steps@.len() > 0 {
        let all = spec_all_steps(doc);
        if forall|i: int| 0 <= i < all.len() ==> spec_step_valid(#[trigger] all[i]) {
            lemma_steps_error_none(all);
        } else {
            let j = choose|j: int| 0 <= j < all.len() && !spec_step_valid(#[trigger] all[j]);
            lemma_steps_error_some(all, 0);
        }
    }
}

/// A list with a malformed step somewhere is reported malformed.
proof fn lemma_steps_error_some(steps: Seq<JobStep>, from: int)
    requires
        exists|j: int| 0 <= j < steps.len() && !spec_step_valid(#[trigger] steps[j]),
    ensures
        spec_steps_error(steps) is Some,
    decreases steps.len(),
{
    if steps.len() > 0 && spec_step_valid(steps[0]) {
        let j = choose|j: int| 0 <= j < steps.len() && !spec_step_valid(#[trigger] steps[j]);
        assert(0 <= j - 1 < steps.drop_first().len() && !spec_step_valid(steps.drop_first()[j - 1]));
        lemma_steps_error_some(steps.drop_first(), 0);
    }
}

/// Checks one step against the schema.
fn check_step(step: &JobStep) -> (r: Result<(), DeviceOpsError>)
    ensures
        match r {
            Ok(()) => spec_step_valid(*step),
            Err(e) => {
                &&& !spec_step_valid(*step)
                &&& e matches DeviceOpsError::InvalidJobDocument(m) && m@ == spec_step_error(*step)
            },
        },
{
    if !(step.action.action_type == "runCommand".to_owned()) {
        let mut msg: String = "Unsupported action type: ".to_owned();
        msg.append(step.action.action_type.as_str());
        msg.append(". Only 'runCommand' is supported");
        return Err(DeviceOpsError::InvalidJobDocument(msg));
    }
    let command_chars = str_chars(step.action.input.command.as_str());
    if command_chars.len() > 4096 {
        return Err(
            DeviceOpsError::InvalidJobDocument("Command too long (max 4096 characters)".to_owned()),
        );
    }
    if chars_blank(&command_chars) {
        return Err(DeviceOpsError::InvalidJobDocument("Command cannot be empty".to_owned()));
    }
    match step.action.input.timeout {
        Some(t) => {
            if t == 0 || t > 86400 {
                return Err(
                    DeviceOpsError::InvalidJobDocument(
                        "Timeout must be between 1 and 86400 seconds (24 hours)".to_owned(),
                    ),
                );
            }
        },
        None => {},
    }
    Ok(())
}

/// Validates a job document against the schema: the supported version, a
/// non-empty step list, and every step well-formed. Returns the reason for
/// the first failing check otherwise.
pub fn validate_job_document(document: &JobDocument) -> (r: Result<(), DeviceOpsError>)
    ensures
        match r {
            Ok(()) => spec_document_valid(*document),
            Err(e) => {
                &&& !spec_document_valid(*document)
                &&& e matches DeviceOpsError::InvalidJobDocument(m) && Some(m@)
                    == spec_document_error(*document)
            },
        },
{
    proof {
        lemma_document_error_none_iff_valid(*document);
    }
    if !(document.version == "1.0".to_owned()) {
        let mut msg: String = "Unsupported job document version: ".to_owned();
        msg.append(document.version.as_str());
        return Err(DeviceOpsError::InvalidJobDocument(msg));
    }
    if document.steps.len() == 0 {
        return Err(DeviceOpsError::InvalidJobDocument("Job document has no steps".to_owned()));
    }
    let ghost all = spec_all_steps(*document);
    let n = document.steps.len();
    let mut i: usize = 0;
    while i < n
        invariant
            n == document.steps@.len(),
            i <= n,
            document.version@ == "1.0"@,
            document.steps@.len() > 0,
            all == spec_all_steps(*document),
            forall|k: int| 0 <= k < i ==> spec_step_valid(#[trigger] all[k]),
        decreases n - i,
    {
        proof {
            assert(all[i as int] == document.steps@[i as int]);
        }
        match check_step(&document.steps[i]) {
            Ok(()) => {},
            Err(e) => {
                proof {
                    assert(!spec_step_valid(spec_all_steps(*document)[i as int]));
                    lemma_steps_error_at(all, i as int);
                }
                return Err(e);
            },
        }
        i = i + 1;
    }
    match &document.final_step {
        Some(f) => {
            proof {
                assert(all[n as int] == *f);
            }
            match check_step(f) {
                Ok(()) => {},
                Err(e) => {
                    proof {
                        assert(!spec_step_valid(spec_all_steps(*document)[n as int]));
                        lemma_steps_error_at(all, n as int);
                    }
                    return Err(e);
                },
            }
        },
        None => {},
    }
    proof {
        assert(forall|k: int| 0 <= k < all.len() ==> spec_step_valid(#[trigger] all[k]));
        lemma_steps_error_none(all);
    }
    Ok(())
}

// ===========================================================================
// Security policy
// ===========================================================================
/// The ASCII-lowercased form of a path, for matching percent-encoded
/// traversal sequences case-insensitively.
pub open spec fn spec_lowered(s: Seq<char>) -> Seq<char> {
    s.map_values(|c: char| lower_char(c))
}

/// A path is treated as a traversal attempt when it contains a `..` or a `~`,
/// contains a percent-encoded traversal sequence (`%2e%2e`, `%2f`, `%5c`, in
/// any letter case), or is not absolute.
pub open spec fn spec_has_traversal(path: Seq<char>) -> bool {
    ||| spec_contains(path, seq!['.', '.'])
    ||| path.contains('~')
    ||| spec_contains(spec_lowered(path), seq!['%', '2', 'e', '%', '2', 'e'])
    ||| spec_contains(spec_lowered(path), seq!['%', '2', 'f'])
    ||| spec_contains(spec_lowered(path), seq!['%', '5', 'c'])
    ||| !(path.len() > 0 && path[0] == '/')
}

/// The components of a path: the pieces between `/` separators, with empty
/// pieces and bare `.` pieces dropped.
pub open spec fn spec_components(s: Seq<char>) -> Seq<Seq<char>> {
    spec_split(s, '/').filter(|p: Seq<char>| p.len() > 0 && p != seq!['.'])
}

/// A path is absolute when it starts with `/`.
pub open spec fn spec_is_abs(s: Seq<char>) -> bool {
    s.len() > 0 && s[0] == '/'
}

/// `path` lies under `prefix`: both are absolute or both relative, and the
/// components of `prefix` lead the components of `path`.
pub open spec fn spec_path_starts_with(path: Seq<char>, prefix: Seq<char>) -> bool {
    &&& spec_is_abs(path) == spec_is_abs(prefix)
    &&& spec_components(prefix).is_prefix_of(spec_components(path))
}

/// A command path that contains `../`, starts with `~`, contains a
/// percent-encoded `..`, or is not absolute is rejected whenever the policy
/// is consulted, whatever the allowlists hold.
pub proof fn law_traversal_always_rejected(v: SecurityValidator, path: Seq<char>)
    requires
        ({
            ||| spec_contains(path, seq!['.', '.', '/'])
            ||| (path.len() > 0 && path[0] == '~')
            ||| spec_contains(spec_lowered(path), seq!['%', '2', 'e', '%', '2', 'e'])
            ||| !(path.len() > 0 && path[0] == '/')
        }),
    ensures
        !v.spec_allows(path),
{
    if spec_contains(path, seq!['.', '.', '/']) {
        let i = choose|i: int| crate::text::spec_contains_at(path, seq!['.', '.', '/'], i);
        assert(path.subrange(i, i + 3) == seq!['.', '.', '/']);
        assert(path.subrange(i, i + 3)[0] == path[i]);
        assert(path.subrange(i, i + 3)[1] == path[i + 1]);
        assert(path.subrange(i, i + 2) =~= seq!['.', '.']);
        assert(crate::text::spec_contains_at(path, seq!['.', '.'], i));
        assert(spec_has_traversal(path));
    } else if path.len() > 0 && path[0] == '~' {
        assert(path.contains('~'));
        assert(spec_has_traversal(path));
    } else {
        assert(spec_has_traversal(path));
    }
}

/// Stateless validator seeded from the security configuration.
pub struct SecurityValidator {
    command_allowlist: Vec<String>,
    path_allowlist: Vec<String>,
}

impl SecurityValidator {
    /// The exact command paths permitted, when the list is non-empty.
    pub closed spec fn spec_commands(&self) -> Seq<Seq<char>> {
        self.command_allowlist.deep_view()
    }

    /// The path prefixes commands must live under, when the list is non-empty.
    pub closed spec fn spec_paths(&self) -> Seq<Seq<char>> {
        self.path_allowlist.deep_view()
    }

    /// The policy accepts `path`: no traversal attempt, and each non-empty
    /// allowlist admits it.
    pub open spec fn spec_allows(&self, path: Seq<char>) -> bool {
        &&& !spec_has_traversal(path)
        &&& self.spec_commands().len() > 0 ==> self.spec_commands().contains(path)
        &&& self.spec_paths().len() > 0 ==> exists|i: int|
            0 <= i < self.spec_paths().len() && spec_path_starts_with(
                path,
                #[trigger] self.spec_paths()[i],
            )
    }

    /// The reason the policy rejects `path`: the first failing check.
    pub open spec fn spec_rejection(&self, path: Seq<char>) -> Seq<char> {
        if spec_has_traversal(path) {
            "Path traversal detected: "@ + path
        } else if self.spec_commands().len() > 0 && !self.spec_commands().contains(path) {
            "Command not in allowlist: "@ + path
        } else {
            "Path not in allowlist: "@ + path
        }
    }

    /// Builds a validator from the configured allowlists.
    pub fn new(config: SecurityConfig) -> (r: Self)
        ensures
            r.spec_commands() == config.command_allowlist.deep_view(),
            r.spec_paths() == config.path_allowlist.deep_view(),
    {
        SecurityValidator {
            command_allowlist: config.command_allowlist,
            path_allowlist: config.path_allowlist,
        }
    }

    /// Checks a command against the policy: traversal detection first, then
    /// the command allowlist, then the path allowlist. Each allowlist is
    /// opt-in: an empty list places no restriction.
    pub fn validate(&self, command: &Command) -> (r: Result<(), DeviceOpsError>)
        ensures
            match r {
                Ok(()) => self.spec_allows(command.script_path@),
                Err(e) => {
                    &&& !self.spec_allows(command.script_path@)
                    &&& e matches DeviceOpsError::SecurityError(m) && m@ == self.spec_rejection(
                        command.script_path@,
                    )
                },
            },
    {
        if self.has_path_traversal(command.script_path.as_str()) {
            let mut msg: String = "Path traversal detected: ".to_owned();
            msg.append(command.script_path.as_str());
            return Err(DeviceOpsError::SecurityError(msg));
        }
        if self.command_allowlist.len() > 0 && !self.is_command_allowed(&command.script_path) {
            let mut msg: String = "Command not in allowlist: ".to_owned();
            msg.append(command.script_path.as_str());
            return Err(DeviceOpsError::SecurityError(msg));
        }
        if self.path_allowlist.len() > 0 && !self.is_path_allowed(&command.script_path) {
            let mut msg: String = "Path not in allowlist: ".to_owned();
            msg.append(command.script_path.as_str());
            return Err(DeviceOpsError::SecurityError(msg));
        }
        Ok(())
    }

    /// Whether the command allowlist names `script_path` exactly.
    pub fn is_command_allowed(&self, script_path: &String) -> (r: bool)
        ensures
            r == self.spec_commands().contains(script_path@),
    {
        let mut i: usize = 0;
        while i < self.command_allowlist.len()
            invariant
                i <= self.spec_commands().len(),
                self.spec_commands().len() == self.command_allowlist@.len(),
                forall|k: int| 0 <= k < i ==> self.spec_commands()[k] != script_path@,
            decreases self.command_allowlist@.len() - i,
        {
            if self.command_allowlist[i] == *script_path {
                proof {
                    assert(self.spec_commands()[i as int] == script_path@);
                }
                return true;
            }
            i = i + 1;
        }
        false
    }

    /// Whether `script_path` lies under some entry of the path allowlist.
    pub fn is_path_allowed(&self, script_path: &String) -> (r: bool)
        ensures
            r == exists|i: int|
                0 <= i < self.spec_paths().len() && spec_path_starts_with(
                    script_path@,
                    #[trigger] self.spec_paths()[i],
                ),
    {
        let path_chars = str_chars(script_path.as_str());
        let path_comps = path_components(&path_chars);
        let path_abs = is_abs(&path_chars);
        let mut i: usize = 0;
        while i < self.path_allowlist.len()
            invariant
                i <= self.spec_paths().len(),
                self.spec_paths().len() == self.path_allowlist@.len(),
                path_chars@ == script_path@,
                path_comps.deep_view() == spec_components(script_path@),
                path_abs == spec_is_abs(script_path@),
                forall|k: int|
                    0 <= k < i ==> !spec_path_starts_with(
                        script_path@,
                        #[trigger] self.spec_paths()[k],
                    ),
            decreases self.path_allowlist@.len() - i,
        {
            let allowed_chars = str_chars(self.path_allowlist[i].as_str());
            let allowed_comps = path_components(&allowed_chars);
            let allowed_abs = is_abs(&allowed_chars);
            proof {
                assert(self.spec_paths()[i as int] == self.path_allowlist@[i as int]@);
            }
            if allowed_abs == path_abs && comps_prefix_of(&allowed_comps, &path_comps) {
                return true;
            }
            i = i + 1;
        }
        false
    }

    /// Whether `path` is treated as a traversal attempt.
    pub fn has_path_traversal(&self, path: &str) -> (r: bool)
        ensures
            r == spec_has_traversal(path@),
    {
        let chars = str_chars(path);
        let dotdot: Vec<char> = vec!['.', '.'];
        if chars_contain(&chars, &dotdot) {
            return true;
        }
        if chars_contain_char(&chars, '~') {
            return true;
        }
        let lowered = to_lower_chars(&chars);
        let enc_dotdot: Vec<char> = vec!['%', '2', 'e', '%', '2', 'e'];
        let enc_slash: Vec<char> = vec!['%', '2', 'f'];
        let enc_backslash: Vec<char> = vec!['%', '5', 'c'];
        if chars_contain(&lowered, &enc_dotdot) || chars_contain(&lowered, &enc_slash)
            || chars_contain(&lowered, &enc_backslash) {
            return true;
        }
        if chars.len() == 0 {
            return true;
        }
        let first = chars[0];
        first != '/'
    }
}

/// Whether a character vector denotes an absolute path.
fn is_abs(v: &Vec<char>) -> (r: bool)
    ensures
        r == spec_is_abs(v@),
{
    v.len() > 0 && v[0] == '/'
}

/// The path components of `v`: `/`-separated pieces, dropping empty and
/// bare-`.` pieces.
fn path_components(v: &Vec<char>) -> (r: Vec<Vec<char>>)
    ensures
        r.deep_view() == spec_components(v@),
{
    let pieces = split_chars(v, '/');
    let mut kept: Vec<Vec<char>> = Vec::new();
    let mut i: usize = 0;
    let ghost pred = |p: Seq<char>| p.len() > 0 && p != seq!['.'];
    proof {
        reveal(Seq::filter);
        assert(pieces.deep_view().take(0) =~~= Seq::<Seq<char>>::empty());
    }
    while i < pieces.len()
        invariant
            i <= pieces@.len(),
            pieces@.len() == pieces.deep_view().len(),
            pred == (|p: Seq<char>| p.len() > 0 && p != seq!['.']),
            kept.deep_view() == pieces.deep_view().take(i as int).filter(pred),
        decreases pieces@.len() - i,
    {
        let piece = &pieces[i];
        let keep = piece.len() > 0 && !(piece.len() == 1 && piece[0] == '.');
        proof {
            reveal(Seq::filter);
            assert(pieces.deep_view()[i as int] == pieces@[i as int]@);
            if piece@.len() == 1 && piece@[0] == '.' {
                assert(piece@ =~= seq!['.']);
            }
            if piece@ == seq!['.'] {
                assert(piece@.len() == 1 && piece@[0] == '.');
            }
            assert(keep == pred(pieces.deep_view()[i as int]));
            let prefix = pieces.deep_view().take(i as int);
            let prefix1 = pieces.deep_view().take(i + 1);
            assert(prefix1.drop_last() =~~= prefix);
            assert(prefix1.last() == pieces.deep_view()[i as int]);
        }
        if keep {
            let ghost pre = kept.deep_view();
            let copy = clone_chars(piece);
            kept.push(copy);
            proof {
                assert(kept.deep_view() =~~= pre.push(pieces.deep_view()[i as int]));
                assert(kept.deep_view() =~~= pieces.deep_view().take(i + 1).filter(pred));
            }
        } else {
            proof {
                assert(kept.deep_view() =~~= pieces.deep_view().take(i + 1).filter(pred));
            }
        }
        i = i + 1;
    }
    proof {
        assert(pieces.deep_view().take(pieces@.len() as int) =~~= pieces.deep_view());
    }
    kept
}

/// A fresh copy of a character vector.
fn clone_chars(v: &Vec<char>) -> (r: Vec<char>)
    ensures
        r@ == v@,
{
    let mut r: Vec<char> = Vec::new();
    let mut i: usize = 0;
    while i < v.len()
        invariant
            i <= v@.len(),
            r@ == v@.take(i as int),
        decreases v@.len() - i,
    {
        r.push(v[i]);
        i = i + 1;
        proof {
            assert(r@ =~= v@.take(i as int));
        }
    }
    proof {
        assert(v@.take(v@.len() as int) =~= v@);
    }
    r
}

/// Whether two character vectors hold the same characters.
fn chars_eq(a: &Vec<char>, b: &Vec<char>) -> (r: bool)
    ensures
        r == (a@ == b@),
{
    if a.len() != b.len() {
        return false;
    }
    let mut i: usize = 0;
    while i < a.len()
        invariant
            a@.len() == b@.len(),
            i <= a@.len(),
            forall|k: int| 0 <= k < i ==> a@[k] == b@[k],
        decreases a@.len() - i,
    {
        if a[i] != b[i] {
            return false;
        }
        i = i + 1;
    }
    proof {
        assert(a@ =~= b@);
    }
    true
}

/// Whether the component list `pre` leads the component list `full`.
fn comps_prefix_of(pre: &Vec<Vec<char>>, full: &Vec<Vec<char>>) -> (r: bool)
    ensures
        r == pre.deep_view().is_prefix_of(full.deep_view()),
{
    if pre.len() > full.len() {
        return false;
    }
    let mut i: usize = 0;
    while i < pre.len()
        invariant
            pre@.len() <= full@.len(),
            pre@.len() == pre.deep_view().len(),
            full@.len() == full.deep_view().len(),
            i <= pre@.len(),
            forall|k: int| 0 <= k < i ==> pre.deep_view()[k] == full.deep_view()[k],
        decreases pre@.len() - i,
    {
        if !chars_eq(&pre[i], &full[i]) {
            proof {
                crate::text::lemma_chars_deep_view(pre@[i as int]);
                crate::text::lemma_chars_deep_view(full@[i as int]);
                assert(pre.deep_view()[i as int] != full.deep_view()[i as int]);
                assert(pre.deep_view() != full.deep_view().subrange(
                    0,
                    pre.deep_view().len() as int,
                ));
            }
            return false;
        }
        proof {
            crate::text::lemma_chars_deep_view(pre@[i as int]);
            crate::text::lemma_chars_deep_view(full@[i as int]);
        }
        i = i + 1;
    }
    proof {
        assert(pre.deep_view() =~~= full.deep_view().subrange(0, pre.deep_view().len() as int));
    }
    true
}

} // verus!
