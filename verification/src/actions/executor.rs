//! Execution policy for actions: placeholder expansion, the dangerous-command
//! blocklist, the optional command allowlist, the concurrency limit and the
//! program each action kind runs.
//!
//! Running the program (spawning, waiting with a timeout, killing the process
//! group) is the caller's part; this module decides whether and what to run,
//! and how the run's outcome is reported.

use crate::actions::{Action, ActionKind};
use crate::text::{
    chars_of, contains, contains_seq, lemma_replace_absent, replace_all, replace_seq,
    string_from_chars, to_lowercase, unicode_lowercase,
};
use core::time::Duration;
use vstd::prelude::*;

verus! {

/// The outcome of running (or refusing to run) an action.
#[derive(Debug, Clone)]
pub struct ActionResult {
    pub action_id: u64,
    pub status: ActionStatus,
    pub output: Option<String>,
    pub error: Option<String>,
    pub duration_ms: u64,
}

#[derive(Debug, Clone, Copy, PartialEq, Eq)]
pub enum ActionStatus {
    Running,
    Completed,
    Failed,
    Timeout,
    Blocked,
}

/// Why an action was not run.
#[derive(Debug, Clone, PartialEq, Eq)]
pub enum Refusal {
    /// The command or content contains this dangerous pattern.
    Dangerous(String),
    /// An allowlist is set and the command matches none of its entries.
    NotAllowlisted,
    /// The concurrency limit is reached.
    TooManyConcurrent,
    /// An open-with command splits into no words.
    EmptyCommand,
    /// Copy actions are not executed.
    CopyNotSupported,
}

impl Refusal {
    /// The status reported for this refusal: the blocklist and allowlist
    /// block, everything else fails.
    pub open spec fn status_spec(self) -> ActionStatus {
        match self {
            Refusal::Dangerous(_) | Refusal::NotAllowlisted => ActionStatus::Blocked,
            _ => ActionStatus::Failed,
        }
    }

    pub fn status(&self) -> (s: ActionStatus)
        ensures
            s == self.status_spec(),
    {
        match self {
            Refusal::Dangerous(_) | Refusal::NotAllowlisted => ActionStatus::Blocked,
            _ => ActionStatus::Failed,
        }
    }
}

/// What to do with an action.
#[derive(Debug, Clone, PartialEq, Eq)]
pub enum ExecutionStep {
    /// Do not run it.
    Refused(Refusal),
    /// Run `program` with `args`.
    Spawn { program: String, args: Vec<String> },
}

/// Knobs and state of the executor: the runtime limit handed to the process
/// runner, the concurrency limit, the number of runs in progress and the
/// (case-insensitive, substring) command allowlist.
pub struct ActionExecutor {
    pub max_runtime: Duration,
    pub max_concurrent: usize,
    pub running: usize,
    pub allowlist: Vec<String>,
}

/// What `Duration::from_secs` returns.
pub uninterp spec fn secs_duration(secs: u64) -> Duration;

/// `Duration::from_secs`, named by [`secs_duration`].
#[verifier::external_body]
fn duration_from_secs(secs: u64) -> (d: Duration)
    ensures
        d == secs_duration(secs),
{
    Duration::from_secs(secs)
}

/// The words `shlex::split` produces, or `None` for erroneous input
/// (unterminated quotes, a trailing backslash).
pub uninterp spec fn shlex_words(s: Seq<char>) -> Option<Seq<Seq<char>>>;

/// `shlex::split`. Claims only that the result is the named `shlex_words`
/// of the input, each word taken by its characters.
#[verifier::external_body]
fn shlex_split(s: &str) -> (r: Option<Vec<String>>)
    ensures
        r is Some <==> shlex_words(s@) is Some,
        r matches Some(v) ==> v@.len() == shlex_words(s@)->0.len() && forall|i: int|
            0 <= i < v@.len() ==> #[trigger] v@[i]@ == shlex_words(s@)->0[i],
{
    shlex::split(s)
}

/// The words of a command line: `shlex` splitting, or no words at all when
/// the line does not split.
pub open spec fn command_words(command: Seq<char>) -> Seq<Seq<char>> {
    match shlex_words(command) {
        Some(w) => w,
        None => Seq::empty(),
    }
}

/// Splits a command line into words (see [`command_words`]).
pub fn split_command(command: &str) -> (r: Vec<String>)
    ensures
        r@.len() == command_words(command@).len(),
        forall|i: int| 0 <= i < r@.len() ==> #[trigger] r@[i]@ == command_words(command@)[i],
{
    match shlex_split(command) {
        Some(words) => words,
        None => Vec::new(),
    }
}

/// The dangerous command fragments, in the order they are checked.
pub open spec fn dangerous_patterns() -> Seq<Seq<char>> {
    seq![
        "rm -rf /"@,
        "rm -rf /*"@,
        "mkfs"@,
        "dd if="@,
        ":(){:|:&};:"@,
        "chmod -R 777 /"@,
        ">/dev/sda"@,
    ]
}

fn dangerous_pattern_list() -> (v: Vec<&'static str>)
    ensures
        v@.len() == dangerous_patterns().len(),
        forall|i: int| 0 <= i < v@.len() ==> #[trigger] v@[i]@ == dangerous_patterns()[i],
{
    let mut v: Vec<&'static str> = Vec::new();
    v.push("rm -rf /");
    v.push("rm -rf /*");
    v.push("mkfs");
    v.push("dd if=");
    v.push(":(){:|:&};:");
    v.push("chmod -R 777 /");
    v.push(">/dev/sda");
    v
}

/// The text the blocklist inspects: `"{command} {content}"` lower-cased.
pub open spec fn blocklist_haystack(command: Seq<char>, content: Seq<char>) -> Seq<char> {
    unicode_lowercase(command + seq![' '] + content)
}

/// Pattern `i` is dangerous for this command and content.
pub open spec fn dangerous_hit(command: Seq<char>, content: Seq<char>, i: int) -> bool {
    contains_seq(blocklist_haystack(command, content), unicode_lowercase(dangerous_patterns()[i]))
}

/// What the blocklist reports: the first dangerous pattern present, if any.
pub open spec fn blocklist_outcome(command: Seq<char>, content: Seq<char>, r: Option<Seq<char>>) -> bool {
    match r {
        Some(p) => exists|i: int|
            0 <= i < dangerous_patterns().len() && #[trigger] dangerous_hit(command, content, i)
                && p == dangerous_patterns()[i] && forall|j: int|
                0 <= j < i ==> !#[trigger] dangerous_hit(command, content, j),
        None => forall|i: int|
            0 <= i < dangerous_patterns().len() ==> !#[trigger] dangerous_hit(command, content, i),
    }
}

/// Law: a command and content whose lower-cased text holds any of the
/// lower-cased dangerous fragments (`rm -rf /`, `rm -rf /*`, `mkfs`, `dd if=`,
/// the fork bomb, `chmod -R 777 /`, `>/dev/sda`) are refused by the blocklist.
pub proof fn lemma_dangerous_fragments_are_refused(command: Seq<char>, content: Seq<char>, r: Option<Seq<char>>)
    requires
        blocklist_outcome(command, content, r),
    ensures
        contains_seq(blocklist_haystack(command, content), unicode_lowercase("rm -rf /"@)) ==> r is Some,
        contains_seq(blocklist_haystack(command, content), unicode_lowercase("rm -rf /*"@)) ==> r is Some,
        contains_seq(blocklist_haystack(command, content), unicode_lowercase("mkfs"@)) ==> r is Some,
        contains_seq(blocklist_haystack(command, content), unicode_lowercase("dd if="@)) ==> r is Some,
        contains_seq(blocklist_haystack(command, content), unicode_lowercase(":(){:|:&};:"@)) ==> r is Some,
        contains_seq(blocklist_haystack(command, content), unicode_lowercase("chmod -R 777 /"@)) ==> r is Some,
        contains_seq(blocklist_haystack(command, content), unicode_lowercase(">/dev/sda"@)) ==> r is Some,
{
    assert(dangerous_patterns()[0] == "rm -rf /"@);
    if contains_seq(blocklist_haystack(command, content), unicode_lowercase("rm -rf /"@)) {
        assert(dangerous_hit(command, content, 0));
    }
    assert(dangerous_patterns()[1] == "rm -rf /*"@);
    if contains_seq(blocklist_haystack(command, content), unicode_lowercase("rm -rf /*"@)) {
        assert(dangerous_hit(command, content, 1));
    }
    assert(dangerous_patterns()[2] == "mkfs"@);
    if contains_seq(blocklist_haystack(command, content), unicode_lowercase("mkfs"@)) {
        assert(dangerous_hit(command, content, 2));
    }
    assert(dangerous_patterns()[3] == "dd if="@);
    if contains_seq(blocklist_haystack(command, content), unicode_lowercase("dd if="@)) {
        assert(dangerous_hit(command, content, 3));
    }
    assert(dangerous_patterns()[4] == ":(){:|:&};:"@);
    if contains_seq(blocklist_haystack(command, content), unicode_lowercase(":(){:|:&};:"@)) {
        assert(dangerous_hit(command, content, 4));
    }
    assert(dangerous_patterns()[5] == "chmod -R 777 /"@);
    if contains_seq(blocklist_haystack(command, content), unicode_lowercase("chmod -R 777 /"@)) {
        assert(dangerous_hit(command, content, 5));
    }
    assert(dangerous_patterns()[6] == ">/dev/sda"@);
    if contains_seq(blocklist_haystack(command, content), unicode_lowercase(">/dev/sda"@)) {
        assert(dangerous_hit(command, content, 6));
    }
}

/// Returns the first dangerous pattern occurring (case-insensitively) in the
/// command or the content, or `None` when the pair is safe.
pub fn check_blocklist(command: &str, content: &str) -> (r: Option<String>)
    ensures
        blocklist_outcome(command@, content@, match r { Some(p) => Some(p@), None => None }),
{
    let mut combined_chars = chars_of(command);
    combined_chars.push(' ');
    let content_chars = chars_of(content);
    let mut k: usize = 0;
    let ghost base = combined_chars@;
    while k < content_chars.len()
        invariant
            k <= content_chars@.len(),
            combined_chars@ == base + content_chars@.subrange(0, k as int),
        decreases content_chars@.len() - k,
    {
        combined_chars.push(content_chars[k]);
        k = k + 1;
        assert(combined_chars@ =~= base + content_chars@.subrange(0, k as int));
    }
    assert(content_chars@.subrange(0, content_chars@.len() as int) =~= content@);
    assert(combined_chars@ =~= command@ + seq![' '] + content@);
    let combined = string_from_chars(combined_chars.as_slice());
    let lower = to_lowercase(combined.as_str());
    let lower_chars = chars_of(lower.as_str());
    let patterns = dangerous_pattern_list();
    let mut i: usize = 0;
    while i < patterns.len()
        invariant
            i <= patterns@.len(),
            patterns@.len() == dangerous_patterns().len(),
            forall|m: int| 0 <= m < patterns@.len() ==> #[trigger] patterns@[m]@ == dangerous_patterns()[m],
            lower_chars@ == blocklist_haystack(command@, content@),
            forall|j: int| 0 <= j < i ==> !#[trigger] dangerous_hit(command@, content@, j),
        decreases patterns@.len() - i,
    {
        let p = patterns[i];
        let p_lower = to_lowercase(p);
        let p_chars = chars_of(p_lower.as_str());
        if contains(lower_chars.as_slice(), p_chars.as_slice()) {
            assert(dangerous_hit(command@, content@, i as int));
            return Some(p.to_owned());
        }
        i = i + 1;
    }
    None
}

/// The allowlist admits `command`: it is empty, or some entry occurs in the
/// command, both lower-cased.
pub open spec fn allowlist_admits(allowlist: Seq<String>, command: Seq<char>) -> bool {
    allowlist.len() == 0 || exists|i: int|
        0 <= i < allowlist.len() && contains_seq(
            unicode_lowercase(command),
            unicode_lowercase(#[trigger] allowlist[i]@),
        )
}

/// `{` `%`, digit `i` `}`: the capture placeholder for group `i` (1..=9).
pub open spec fn capture_placeholder(i: nat) -> Seq<char> {
    seq!['%', ((('0' as u32) + i) as char)]
}

/// Replaces the placeholders `%i`, from `i` up to 9, by the text of capture
/// group `i`, where the template holds the placeholder and the group took
/// part in the match.
pub open spec fn apply_captures(s: Seq<char>, caps: Seq<Option<Seq<char>>>, i: nat) -> Seq<char>
    decreases 10 - i,
{
    if i > 9 {
        s
    } else {
        let ph = capture_placeholder(i);
        let next = if contains_seq(s, ph) && i < caps.len() && caps[i as int] is Some {
            replace_seq(s, ph, caps[i as int]->0)
        } else {
            s
        };
        apply_captures(next, caps, i + 1)
    }
}

/// The expansion of a command template: `%clipboard` becomes the content,
/// then `%1`..`%9` the capture groups (when captures are given), then `%%`
/// becomes `%`.
pub open spec fn expand_spec(template: Seq<char>, content: Seq<char>, caps: Option<Seq<Option<Seq<char>>>>) -> Seq<char> {
    let with_content = replace_seq(template, "%clipboard"@, content);
    let with_caps = match caps {
        Some(c) => apply_captures(with_content, c, 1),
        None => with_content,
    };
    replace_seq(with_caps, "%%"@, "%"@)
}

/// The capture groups by number, each by its text.
pub open spec fn captures_view(caps: Seq<Option<String>>) -> Seq<Option<Seq<char>>> {
    caps.map_values(|g: Option<String>| match g { Some(s) => Some(s@), None => None })
}

/// Expands `%clipboard` and `%%` in a command template.
pub fn expand_placeholders(template: &str, content: &str) -> (r: String)
    ensures
        r@ == expand_spec(template@, content@, None),
{
    expand_placeholders_with_captures(template, content, None)
}

/// Expands `%clipboard`, the capture placeholders `%1`..`%9` (when regex
/// capture groups are given, `captures[i]` being group `i`) and `%%`.
pub fn expand_placeholders_with_captures(
    template: &str,
    content: &str,
    captures: Option<&Vec<Option<String>>>,
) -> (r: String)
    ensures
        r@ == expand_spec(
            template@,
            content@,
            match captures { Some(c) => Some(captures_view(c@)), None => None },
        ),
{
    proof {
        reveal_strlit("%clipboard");
        reveal_strlit("%%");
        reveal_strlit("%");
    }
    let t = chars_of(template);
    let key = chars_of("%clipboard");
    let c = chars_of(content);
    let mut result = replace_all(t.as_slice(), key.as_slice(), c.as_slice());
    match captures {
        Some(caps) => {
            let ghost cv = captures_view(caps@);
            let mut i: usize = 1;
            while i <= 9
                invariant
                    1 <= i <= 10,
                    cv == captures_view(caps@),
                    apply_captures(result@, cv, i as nat) == apply_captures(
                        replace_seq(template@, "%clipboard"@, content@),
                        cv,
                        1,
                    ),
                decreases 10 - i,
            {
                let mut ph: Vec<char> = Vec::new();
                ph.push('%');
                let digit = ((i as u8) + ('0' as u8)) as char;
                ph.push(digit);
                assert(ph@ =~= capture_placeholder(i as nat));
                if contains(result.as_slice(), ph.as_slice()) && i < caps.len() {
                    match &caps[i] {
                        Some(m) => {
                            let mc = chars_of(m.as_str());
                            assert(cv[i as int] == Some(m@));
                            result = replace_all(result.as_slice(), ph.as_slice(), mc.as_slice());
                        },
                        None => {
                            assert(cv[i as int] is None);
                        },
                    }
                }
                i = i + 1;
            }
        },
        None => {},
    }
    let esc = chars_of("%%");
    let pct = chars_of("%");
    let out = replace_all(result.as_slice(), esc.as_slice(), pct.as_slice());
    string_from_chars(out.as_slice())
}

proof fn lemma_apply_captures_absent(s: Seq<char>, caps: Seq<Option<Seq<char>>>, i: nat)
    requires
        !s.contains('%'),
    ensures
        apply_captures(s, caps, i) == s,
    decreases 10 - i,
{
    if i <= 9 {
        let ph = capture_placeholder(i);
        if contains_seq(s, ph) {
            let k = choose|k: int| crate::text::occurs_at(s, ph, k);
            assert(s.subrange(k, k + 2)[0] == '%');
            assert(s[k] == '%');
        }
        lemma_apply_captures_absent(s, caps, i + 1);
    }
}

/// Law: a template without `%` expands to itself, whatever the content and
/// the captures.
pub proof fn lemma_expand_without_percent(template: Seq<char>, content: Seq<char>, caps: Option<Seq<Option<Seq<char>>>>)
    requires
        !template.contains('%'),
    ensures
        expand_spec(template, content, caps) == template,
{
    reveal_strlit("%clipboard");
    reveal_strlit("%%");
    lemma_replace_absent(template, "%clipboard"@, content);
    match caps {
        Some(c) => lemma_apply_captures_absent(template, c, 1),
        None => {},
    }
    lemma_replace_absent(template, "%%"@, "%"@);
}

/// The program and arguments an action kind runs: `xdg-open` on the content,
/// the split expanded command line, or `sh -c` with the expanded command;
/// `None` for copy actions and for command lines with no words.
pub open spec fn run_plan(action: Action, content: Seq<char>) -> Option<(Seq<char>, Seq<Seq<char>>)> {
    let expanded = expand_spec(action.command@, content, None);
    match action.kind {
        ActionKind::Open => Some(("xdg-open"@, seq![content])),
        ActionKind::OpenWith => {
            let words = command_words(expanded);
            if words.len() == 0 {
                None
            } else {
                Some((words[0], words.subrange(1, words.len() as int)))
            }
        },
        ActionKind::Copy => None,
        ActionKind::ShellCommand => Some(("sh"@, seq!["-c"@, expanded])),
    }
}

/// The refusal for an action kind that yields no plan.
pub open spec fn plan_refusal(action: Action) -> Refusal {
    match action.kind {
        ActionKind::Copy => Refusal::CopyNotSupported,
        _ => Refusal::EmptyCommand,
    }
}

/// A spawn step running `program` with `args`.
pub open spec fn spawns(step: ExecutionStep, program: Seq<char>, args: Seq<Seq<char>>) -> bool {
    match step {
        ExecutionStep::Spawn { program: p, args: a } => p@ == program && a@.len() == args.len()
            && forall|i: int| 0 <= i < args.len() ==> #[trigger] a@[i]@ == args[i],
        ExecutionStep::Refused(_) => false,
    }
}

fn strings_from(words: &Vec<String>, from: usize) -> (r: Vec<String>)
    requires
        from <= words@.len(),
    ensures
        r@.len() == words@.len() - from,
        forall|i: int| 0 <= i < r@.len() ==> #[trigger] r@[i]@ == words@[i + from]@,
{
    let mut r: Vec<String> = Vec::new();
    let mut k: usize = from;
    while k < words.len()
        invariant
            from <= k <= words@.len(),
            r@.len() == k - from,
            forall|i: int| 0 <= i < r@.len() ==> #[trigger] r@[i]@ == words@[i + from]@,
        decreases words@.len() - k,
    {
        r.push(words[k].clone());
        k = k + 1;
    }
    r
}

/// Builds the step for an action that passed every check (see [`run_plan`]).
fn plan_action(action: &Action, content: &str) -> (step: ExecutionStep)
    ensures
        match run_plan(*action, content@) {
            Some((program, args)) => spawns(step, program, args),
            None => step == ExecutionStep::Refused(plan_refusal(*action)),
        },
{
    let expanded = expand_placeholders(action.command.as_str(), content);
    match action.kind {
        ActionKind::Open => {
            let mut args: Vec<String> = Vec::new();
            args.push(content.to_owned());
            ExecutionStep::Spawn { program: "xdg-open".to_owned(), args }
        },
        ActionKind::OpenWith => {
            let parts = split_command(expanded.as_str());
            if parts.len() == 0 {
                ExecutionStep::Refused(Refusal::EmptyCommand)
            } else {
                let program = parts[0].clone();
                let args = strings_from(&parts, 1);
                ExecutionStep::Spawn { program, args }
            }
        },
        ActionKind::Copy => ExecutionStep::Refused(Refusal::CopyNotSupported),
        ActionKind::ShellCommand => {
            let mut args: Vec<String> = Vec::new();
            args.push("-c".to_owned());
            args.push(expanded);
            ExecutionStep::Spawn { program: "sh".to_owned(), args }
        },
    }
}

/// The status of a finished run: timeout wins, then the exit status.
pub open spec fn outcome_status_spec(timed_out: bool, success: bool) -> ActionStatus {
    if timed_out {
        ActionStatus::Timeout
    } else if success {
        ActionStatus::Completed
    } else {
        ActionStatus::Failed
    }
}

impl ActionResult {
    /// The result of a run that produced output: the status from the timeout
    /// flag and the exit status, the standard output, and the standard error
    /// when it is not empty.
    pub fn from_run(action_id: u64, timed_out: bool, success: bool, stdout: String, stderr: String, duration_ms: u64) -> (r: ActionResult)
        ensures
            r.action_id == action_id,
            r.status == outcome_status_spec(timed_out, success),
            r.output == Some(stdout),
            r.error == (if stderr@.len() == 0 { None } else { Some(stderr) }),
            r.duration_ms == duration_ms,
    {
        let status = if timed_out {
            ActionStatus::Timeout
        } else if success {
            ActionStatus::Completed
        } else {
            ActionStatus::Failed
        };
        let error = if stderr.as_str().is_empty() {
            None
        } else {
            Some(stderr)
        };
        ActionResult { action_id, status, output: Some(stdout), error, duration_ms }
    }

    /// The result of an action that could not be run: a failure or block
    /// with the given error text and no output.
    pub fn refused(action_id: u64, status: ActionStatus, error: String, duration_ms: u64) -> (r: ActionResult)
        ensures
            r.action_id == action_id,
            r.status == status,
            r.output is None,
            r.error == Some(error),
            r.duration_ms == duration_ms,
    {
        ActionResult { action_id, status, output: None, error: Some(error), duration_ms }
    }
}

impl ActionExecutor {
    /// A 30-second runtime limit, at most 4 concurrent runs, none running,
    /// no allowlist.
    pub fn new() -> (e: Self)
        ensures
            e.max_runtime == secs_duration(30),
            e.max_concurrent == 4,
            e.running == 0,
            e.allowlist@.len() == 0,
    {
        ActionExecutor {
            max_runtime: duration_from_secs(30),
            max_concurrent: 4,
            running: 0,
            allowlist: Vec::new(),
        }
    }

    /// The same executor with another runtime limit.
    pub fn with_max_runtime(self, d: Duration) -> (e: Self)
        ensures
            e.max_runtime == d,
            e.max_concurrent == self.max_concurrent,
            e.running == self.running,
            e.allowlist@ == self.allowlist@,
    {
        let mut e = self;
        e.max_runtime = d;
        e
    }

    /// The same executor with another concurrency limit.
    pub fn with_max_concurrent(self, n: usize) -> (e: Self)
        ensures
            e.max_concurrent == n,
            e.max_runtime == self.max_runtime,
            e.running == self.running,
            e.allowlist@ == self.allowlist@,
    {
        let mut e = self;
        e.max_concurrent = n;
        e
    }

    /// Replaces the allowlist; an empty list allows every command.
    pub fn set_allowlist(&mut self, list: Vec<String>)
        ensures
            final(self).allowlist@ == list@,
            final(self).max_runtime == old(self).max_runtime,
            final(self).max_concurrent == old(self).max_concurrent,
            final(self).running == old(self).running,
    {
        self.allowlist = list;
    }

    /// Whether the allowlist admits the command (see [`allowlist_admits`]).
    pub fn is_command_allowed(&self, command: &str) -> (b: bool)
        ensures
            b == allowlist_admits(self.allowlist@, command@),
    {
        if self.allowlist.len() == 0 {
            return true;
        }
        let lower = to_lowercase(command);
        let lower_chars = chars_of(lower.as_str());
        let mut i: usize = 0;
        while i < self.allowlist.len()
            invariant
                i <= self.allowlist@.len(),
                lower_chars@ == unicode_lowercase(command@),
                forall|j: int| 0 <= j < i ==> !contains_seq(
                    unicode_lowercase(command@),
                    unicode_lowercase(#[trigger] self.allowlist@[j]@),
                ),
            decreases self.allowlist@.len() - i,
        {
            let entry = to_lowercase(self.allowlist[i].as_str());
            let entry_chars = chars_of(entry.as_str());
            if contains(lower_chars.as_slice(), entry_chars.as_slice()) {
                return true;
            }
            i = i + 1;
        }
        false
    }

    /// Decides what to do with `action` on `content`, in order: refuse when
    /// the blocklist finds a dangerous pattern, refuse when the allowlist does
    /// not admit the command, refuse when `max_concurrent` runs are in
    /// progress, refuse copy actions and command lines with no words, and
    /// otherwise spawn the planned program, counting one more run in
    /// progress. A refusal leaves the executor unchanged.
    pub fn begin(&mut self, action: &Action, content: &str) -> (step: ExecutionStep)
        ensures
            final(self).max_runtime == old(self).max_runtime,
            final(self).max_concurrent == old(self).max_concurrent,
            final(self).allowlist@ == old(self).allowlist@,
            old(self).running <= old(self).max_concurrent ==> final(self).running <= final(self).max_concurrent,
            ({
                let cmd = action.command@;
                let ctx = content@;
                let old_s = *old(self);
                if exists|i: int| 0 <= i < dangerous_patterns().len() && #[trigger] dangerous_hit(cmd, ctx, i) {
                    &&& step matches ExecutionStep::Refused(Refusal::Dangerous(p))
                    &&& blocklist_outcome(cmd, ctx, Some(p@))
                    &&& final(self).running == old_s.running
                } else if !allowlist_admits(old_s.allowlist@, cmd) {
                    step == ExecutionStep::Refused(Refusal::NotAllowlisted) && final(self).running == old_s.running
                } else if old_s.running >= old_s.max_concurrent {
                    step == ExecutionStep::Refused(Refusal::TooManyConcurrent) && final(self).running == old_s.running
                } else {
                    match run_plan(*action, ctx) {
                        Some((program, args)) => spawns(step, program, args) && final(self).running == old_s.running + 1,
                        None => step == ExecutionStep::Refused(plan_refusal(*action)) && final(self).running == old_s.running,
                    }
                }
            }),
    {
        match check_blocklist(action.command.as_str(), content) {
            Some(p) => {
                return ExecutionStep::Refused(Refusal::Dangerous(p));
            },
            None => {},
        }
        if !self.is_command_allowed(action.command.as_str()) {
            return ExecutionStep::Refused(Refusal::NotAllowlisted);
        }
        if self.running >= self.max_concurrent {
            return ExecutionStep::Refused(Refusal::TooManyConcurrent);
        }
        let step = plan_action(action, content);
        match step {
            ExecutionStep::Spawn { .. } => {
                self.running = self.running + 1;
            },
            ExecutionStep::Refused(_) => {},
        }
        step
    }

    /// Records that a spawned run has ended.
    pub fn finish(&mut self)
        requires
            old(self).running > 0,
        ensures
            final(self).running == old(self).running - 1,
            final(self).max_runtime == old(self).max_runtime,
            final(self).max_concurrent == old(self).max_concurrent,
            final(self).allowlist@ == old(self).allowlist@,
    {
        self.running = self.running - 1;
    }
}

impl Default for ActionExecutor {
    fn default() -> (e: Self)
        ensures
            e.max_runtime == secs_duration(30),
            e.max_concurrent == 4,
            e.running == 0,
            e.allowlist@.len() == 0,
    {
        Self::new()
    }
}

/// Law: an empty allowlist admits every command.
pub proof fn lemma_empty_allowlist_admits_all(command: Seq<char>)
    ensures
        allowlist_admits(Seq::empty(), command),
{
}

/// Law: an allowlist entry admits every command in which it occurs, at any
/// position, both lower-cased; the entry need not start the command.
pub proof fn lemma_allowlist_entry_anywhere_admits(allowlist: Seq<String>, command: Seq<char>, i: int, k: int)
    requires
        0 <= i < allowlist.len(),
        0 <= k,
        k + unicode_lowercase(allowlist[i]@).len() <= unicode_lowercase(command).len(),
        unicode_lowercase(command).subrange(k, k + unicode_lowercase(allowlist[i]@).len())
            == unicode_lowercase(allowlist[i]@),
    ensures
        allowlist_admits(allowlist, command),
{
    assert(crate::text::occurs_at(unicode_lowercase(command), unicode_lowercase(allowlist[i]@), k));
}

/// Law: a non-empty allowlist admits a command only where one of its entries
/// occurs in it somewhere, both lower-cased.
pub proof fn lemma_allowlist_admits_only_occurrences(allowlist: Seq<String>, command: Seq<char>)
    requires
        allowlist.len() > 0,
        allowlist_admits(allowlist, command),
    ensures
        exists|i: int, k: int|
            0 <= i < allowlist.len() && 0 <= k
                && k + unicode_lowercase(#[trigger] allowlist[i]@).len() <= unicode_lowercase(command).len()
                && #[trigger] unicode_lowercase(command).subrange(k, k + unicode_lowercase(allowlist[i]@).len())
                    == unicode_lowercase(allowlist[i]@),
{
    let i = choose|i: int|
        0 <= i < allowlist.len() && contains_seq(
            unicode_lowercase(command),
            unicode_lowercase(#[trigger] allowlist[i]@),
        );
    let k = choose|k: int| crate::text::occurs_at(unicode_lowercase(command), unicode_lowercase(allowlist[i]@), k);
    assert(unicode_lowercase(command).subrange(k, k + unicode_lowercase(allowlist[i]@).len())
        == unicode_lowercase(allowlist[i]@));
}

} // verus!
