//! What an operator configures.

use crate::json::{
    entries_model, entry_of, find_entry, later_entries_count, lemma_entries_model_absent,
    lemma_entries_model_last, Json, JsonModel,
};
use vstd::prelude::*;

verus! {

/// The one sink option that was once accepted and had no effect.
pub const RETIRED_OPTION: &'static str = "max_size_mb";

/// Why that option is refused, in words that an operator can act on.
pub const RETIRED_REASON: &'static str =
    "the file sink does not enforce a size limit and never rotates `path`; rotation is external (`logrotate` or equivalent). Remove the key and size-cap the file through the rotation tool instead";

/// How the audit trail is kept.
#[derive(Debug, Clone)]
pub struct AuditConfig {
    /// Which sink to write audit events to.
    pub sink: AuditSinkConfig,
    /// Put the redacted arguments into audit events.
    pub include_arguments: bool,
    /// Put the digest of the redacted arguments into audit events.
    pub include_arguments_hash: bool,
    /// Put the redacted results into audit events.
    pub include_results: bool,
    /// Put result summaries into audit events.
    pub include_result_summary: bool,
    /// Copy what a tool result says under `_meta.audit` into audit events.
    pub include_result_meta: bool,
    /// Patterns of the tools to audit. Without patterns, all tools are.
    pub tools_filter: Option<Vec<String>>,
    /// How many events may wait to be written.
    pub buffer_size: usize,
}

/// Where audit events are written.
#[derive(Debug, Clone, PartialEq, Eq)]
pub enum AuditSinkConfig {
    /// JSON lines to the standard output.
    Stdout,
    /// JSON lines at the end of a file. The file has no size limit and is not
    /// rotated here.
    File { path: String },
}

/// A sink, free of how its path is stored.
pub enum SinkModel {
    Stdout,
    File(Seq<char>),
}

impl View for AuditSinkConfig {
    type V = SinkModel;

    open spec fn view(&self) -> SinkModel {
        match *self {
            AuditSinkConfig::Stdout => SinkModel::Stdout,
            AuditSinkConfig::File { path } => SinkModel::File(path@),
        }
    }
}

/// What is on unless the operator says otherwise.
pub fn default_true() -> (b: bool)
    ensures
        b,
{
    true
}

/// How many events may wait unless the operator says otherwise.
pub fn default_buffer_size() -> (size: usize)
    ensures
        size == 8192,
{
    8192
}

impl AuditConfig {
    /// Whether this is what holds where the operator says nothing.
    pub open spec fn is_default(self) -> bool {
        &&& self.sink@ == SinkModel::Stdout
        &&& !self.include_arguments
        &&& self.include_arguments_hash
        &&& !self.include_results
        &&& self.include_result_summary
        &&& self.include_result_meta
        &&& self.tools_filter is None
        &&& self.buffer_size == 8192
    }

    /// How many events may wait: the configured number, but at least one.
    pub open spec fn capacity(self) -> int {
        if self.buffer_size == 0 {
            1
        } else {
            self.buffer_size as int
        }
    }

    /// The number of events that may wait to be written.
    pub fn channel_capacity(&self) -> (capacity: usize)
        ensures
            capacity == self.capacity(),
            capacity >= 1,
    {
        if self.buffer_size == 0 {
            1
        } else {
            self.buffer_size
        }
    }
}

impl Default for AuditSinkConfig {
    fn default() -> (sink: Self)
        ensures
            sink@ == SinkModel::Stdout,
    {
        AuditSinkConfig::Stdout
    }
}

impl Default for AuditConfig {
    fn default() -> (config: Self)
        ensures
            config.is_default(),
    {
        AuditConfig {
            sink: AuditSinkConfig::default(),
            include_arguments: false,
            include_arguments_hash: default_true(),
            include_results: false,
            include_result_summary: default_true(),
            include_result_meta: default_true(),
            tools_filter: None,
            buffer_size: default_buffer_size(),
        }
    }
}

/// The kinds of sinks.
#[derive(Debug, Clone, Copy, PartialEq, Eq, Structural)]
pub enum SinkKind {
    Stdout,
    File,
}

impl SinkKind {
    /// The kind that a configuration calls by a name.
    pub fn from_name(name: &str) -> (kind: Option<SinkKind>)
        ensures
            kind == Some(SinkKind::Stdout) <==> name@ == "stdout"@,
            kind == Some(SinkKind::File) <==> name@ == "file"@,
    {
        let given: String = name.to_owned();
        proof {
            reveal_strlit("stdout");
            reveal_strlit("file");
            assert("stdout"@.len() != "file"@.len());
        }
        if given == "stdout".to_owned() {
            Some(SinkKind::Stdout)
        } else if given == "file".to_owned() {
            Some(SinkKind::File)
        } else {
            None
        }
    }
}

/// Why a sink configuration is refused.
#[derive(Debug, Clone, PartialEq, Eq)]
pub enum SinkConfigError {
    /// A file sink has no path.
    MissingPath,
    /// The path of a file sink is not a string.
    PathNotString,
    /// An option that is no longer accepted was given.
    RetiredOption,
    /// An option that the sink does not have was given.
    UnknownOption { key: String },
}

/// Why a sink configuration is refused, free of how the option's name is
/// stored.
pub enum RefusalModel {
    MissingPath,
    PathNotString,
    RetiredOption,
    UnknownOption(Seq<char>),
}

impl View for SinkConfigError {
    type V = RefusalModel;

    open spec fn view(&self) -> RefusalModel {
        match *self {
            SinkConfigError::MissingPath => RefusalModel::MissingPath,
            SinkConfigError::PathNotString => RefusalModel::PathNotString,
            SinkConfigError::RetiredOption => RefusalModel::RetiredOption,
            SinkConfigError::UnknownOption { key } => RefusalModel::UnknownOption(key@),
        }
    }
}

/// Whether a sink has an option.
pub open spec fn sink_has_option(kind: SinkKind, key: Seq<char>) -> bool {
    kind == SinkKind::File && key == "path"@
}

/// The first given option that the sink does not have.
pub open spec fn first_unknown(kind: SinkKind, options: Seq<(String, Json)>) -> Option<Seq<char>>
    decreases options.len(),
{
    if options.len() == 0 {
        None
    } else if !sink_has_option(kind, options[0].0@) {
        Some(options[0].0@)
    } else {
        first_unknown(kind, options.skip(1))
    }
}

/// What becomes of a sink configuration: the sink, or why there is none. A
/// retired option is named before one that was never known.
pub open spec fn sink_verdict(kind: SinkKind, options: Seq<(String, Json)>) -> Result<
    SinkModel,
    RefusalModel,
> {
    let given = entries_model(options);
    if kind == SinkKind::File && !given.contains_key("path"@) {
        Err(RefusalModel::MissingPath)
    } else if kind == SinkKind::File && !(given["path"@] is String) {
        Err(RefusalModel::PathNotString)
    } else if given.contains_key(RETIRED_OPTION@) {
        Err(RefusalModel::RetiredOption)
    } else if first_unknown(kind, options) is Some {
        Err(RefusalModel::UnknownOption(first_unknown(kind, options)->0))
    } else if kind == SinkKind::File {
        Ok(SinkModel::File(given["path"@]->String_0))
    } else {
        Ok(SinkModel::Stdout)
    }
}

/// Finds the first given option that the sink does not have.
fn find_unknown(kind: SinkKind, options: &Vec<(String, Json)>) -> (found: Option<usize>)
    ensures
        found is Some <==> first_unknown(kind, options@) is Some,
        found matches Some(i) ==> i < options.len() && first_unknown(kind, options@) == Some(
            options@[i as int].0@,
        ),
{
    let path: String = "path".to_owned();
    let mut i: usize = 0;
    assert(options@.skip(0) =~= options@);
    while i < options.len()
        invariant
            i <= options.len(),
            path@ == "path"@,
            first_unknown(kind, options@) == first_unknown(kind, options@.skip(i as int)),
        decreases options.len() - i,
    {
        assert(options@.skip(i as int)[0] == options@[i as int]);
        let known: bool = match kind {
            SinkKind::Stdout => false,
            SinkKind::File => options[i].0 == path,
        };
        if !known {
            return Some(i);
        }
        assert(options@.skip(i as int).skip(1) =~= options@.skip(i + 1));
        i = i + 1;
    }
    None
}

impl AuditSinkConfig {
    /// Reads a sink configuration: its kind, and the other options in the
    /// order of the map that they come from. Options that the sink does not
    /// have are refused rather than ignored.
    pub fn from_options(kind: SinkKind, options: &Vec<(String, Json)>) -> (outcome: Result<
        AuditSinkConfig,
        SinkConfigError,
    >)
        ensures
            match outcome {
                Ok(sink) => sink_verdict(kind, options@) == Ok::<SinkModel, RefusalModel>(sink@),
                Err(error) => sink_verdict(kind, options@) == Err::<SinkModel, RefusalModel>(
                    error@,
                ),
            },
    {
        let sink: AuditSinkConfig = match kind {
            SinkKind::Stdout => AuditSinkConfig::Stdout,
            SinkKind::File => match find_entry(options, "path") {
                None => {
                    return Err(SinkConfigError::MissingPath);
                },
                Some(value) => match value.as_str() {
                    None => {
                        return Err(SinkConfigError::PathNotString);
                    },
                    Some(path) => AuditSinkConfig::File { path: path.to_owned() },
                },
            },
        };
        if find_entry(options, RETIRED_OPTION).is_some() {
            return Err(SinkConfigError::RetiredOption);
        }
        match find_unknown(kind, options) {
            Some(i) => Err(SinkConfigError::UnknownOption { key: options[i].0.clone() }),
            None => Ok(sink),
        }
    }
}

/// The message that tells an operator why a sink configuration is refused.
pub open spec fn refusal_text(refusal: RefusalModel) -> Seq<char> {
    match refusal {
        RefusalModel::MissingPath => "missing field `path`"@,
        RefusalModel::PathNotString => "audit sink `path` must be a string"@,
        RefusalModel::RetiredOption => "audit sink option `"@ + RETIRED_OPTION@
            + "` is no longer accepted: "@ + RETIRED_REASON@,
        RefusalModel::UnknownOption(key) => "unknown audit sink option `"@ + key + "`"@,
    }
}

impl SinkConfigError {
    /// The message for the operator.
    pub fn message(&self) -> (text: String)
        ensures
            text@ == refusal_text(self@),
    {
        match self {
            SinkConfigError::MissingPath => "missing field `path`".to_owned(),
            SinkConfigError::PathNotString => "audit sink `path` must be a string".to_owned(),
            SinkConfigError::RetiredOption => {
                let mut text: String = "audit sink option `".to_owned();
                text.append(RETIRED_OPTION);
                text.append("` is no longer accepted: ");
                text.append(RETIRED_REASON);
                text
            },
            SinkConfigError::UnknownOption { key } => {
                let mut text: String = "unknown audit sink option `".to_owned();
                text.append(key.as_str());
                text.append("`");
                text
            },
        }
    }
}

proof fn lemma_first_unknown(kind: SinkKind, options: Seq<(String, Json)>)
    ensures
        first_unknown(kind, options) is None <==> forall|i: int|
            0 <= i < options.len() ==> sink_has_option(kind, (#[trigger] options[i]).0@),
    decreases options.len(),
{
    if options.len() > 0 && sink_has_option(kind, options[0].0@) {
        let rest = options.skip(1);
        lemma_first_unknown(kind, rest);
        if first_unknown(kind, rest) is None {
            assert forall|i: int| 0 <= i < options.len() implies sink_has_option(
                kind,
                (#[trigger] options[i]).0@,
            ) by {
                if i > 0 {
                    assert(options[i] == rest[i - 1]);
                }
            }
        } else {
            let i = choose|i: int|
                0 <= i < rest.len() && !sink_has_option(kind, (#[trigger] rest[i]).0@);
            assert(options[i + 1] == rest[i]);
        }
    }
}

proof fn lemma_given(options: Seq<(String, Json)>, i: int)
    requires
        0 <= i < options.len(),
    ensures
        entries_model(options).contains_key(options[i].0@),
    decreases options.len() - i,
{
    if forall|j: int| i < j < options.len() ==> (#[trigger] options[j]).0@ != options[i].0@ {
        lemma_entries_model_last(options, i);
    } else {
        let j = choose|j: int|
            i < j < options.len() && (#[trigger] options[j]).0@ == options[i].0@;
        lemma_given(options, j);
    }
}

/// A configuration is accepted in two shapes only: the standard output with
/// no options, and a file with a path that is a string and no other option.
pub proof fn accepted_sink_shapes(kind: SinkKind, options: Seq<(String, Json)>)
    ensures
        sink_verdict(kind, options) is Ok <==> match kind {
            SinkKind::Stdout => options.len() == 0,
            SinkKind::File => {
                &&& options.len() > 0
                &&& forall|i: int| 0 <= i < options.len() ==> (#[trigger] options[i]).0@ == "path"@
                &&& entries_model(options)["path"@] is String
            },
        },
        sink_verdict(kind, options) == Ok::<SinkModel, RefusalModel>(SinkModel::Stdout) ==> kind
            == SinkKind::Stdout,
{
    lemma_first_unknown(kind, options);
    reveal_strlit("max_size_mb");
    reveal_strlit("path");
    assert("max_size_mb"@.len() != "path"@.len());
    if options.len() > 0 {
        lemma_given(options, 0);
        if forall|i: int| 0 <= i < options.len() ==> (#[trigger] options[i]).0@ == "path"@ {
            assert(options[0].0@ == "path"@);
            lemma_entries_model_absent(options, RETIRED_OPTION@);
        }
    }
}

/// An option that the sink does not have is never ignored.
pub proof fn unknown_options_are_refused(kind: SinkKind, options: Seq<(String, Json)>, i: int)
    requires
        0 <= i < options.len(),
        !sink_has_option(kind, options[i].0@),
    ensures
        sink_verdict(kind, options) is Err,
{
    lemma_first_unknown(kind, options);
}

/// The retired option is refused wherever it is given. Unless a file sink
/// already lacks its path, the refusal is the one that explains the option,
/// whatever unknown options stand beside it.
pub proof fn retired_option_is_refused(kind: SinkKind, options: Seq<(String, Json)>, i: int)
    requires
        0 <= i < options.len(),
        options[i].0@ == RETIRED_OPTION@,
    ensures
        sink_verdict(kind, options) matches Err(refusal) && (refusal is RetiredOption || (kind
            == SinkKind::File && (refusal is MissingPath || refusal is PathNotString))),
{
    lemma_given(options, i);
}

/// How a sink configuration is judged, in order. A file sink without a path is
/// refused for that, then one whose path is no string. Then the retired option
/// is refused by its own reason, and then the first option that the sink does
/// not have, by its name. What is left is accepted: the standard output, or the
/// file at the path. Where a key occurs twice, the later entry counts.
pub proof fn sinks_are_judged_in_order(kind: SinkKind, options: Vec<(String, Json)>)
    ensures
        ({
            let verdict = sink_verdict(kind, options@);
            let path = entry_of(Json::Object(options), "path"@);
            let retired = exists|i: int|
                0 <= i < options@.len() && (#[trigger] options@[i]).0@ == "max_size_mb"@;
            let to_file = kind == SinkKind::File;
            &&& verdict == Err::<SinkModel, RefusalModel>(RefusalModel::MissingPath) <==> to_file
                && path is None
            &&& verdict == Err::<SinkModel, RefusalModel>(RefusalModel::PathNotString) <==> to_file
                && path is Some && !(path->0 is String)
            &&& verdict == Err::<SinkModel, RefusalModel>(RefusalModel::RetiredOption) <==> retired
                && (to_file ==> path is Some && path->0 is String)
            &&& verdict is Err && verdict->Err_0 is UnknownOption <==> {
                &&& !retired
                &&& (to_file ==> path is Some && path->0 is String)
                &&& exists|i: int|
                    0 <= i < options@.len() && ((#[trigger] options@[i]).0@ != "path"@ || !to_file)
            }
            &&& verdict is Err && verdict->Err_0 is UnknownOption ==> exists|i: int|
                {
                    &&& 0 <= i < options@.len()
                    &&& (#[trigger] options@[i]).0@ == verdict->Err_0->UnknownOption_0
                    &&& options@[i].0@ != "path"@ || !to_file
                    &&& forall|j: int|
                        0 <= j < i ==> to_file && (#[trigger] options@[j]).0@ == "path"@
                }
            &&& verdict is Ok ==> verdict->Ok_0 == match kind {
                SinkKind::Stdout => SinkModel::Stdout,
                SinkKind::File => SinkModel::File(path->0->String_0@),
            }
        }),
{
    let verdict = sink_verdict(kind, options@);
    let to_file = kind == SinkKind::File;
    later_entries_count(Json::Object(options), "path"@);
    if exists|i: int| 0 <= i < options@.len() && (#[trigger] options@[i]).0@ == "max_size_mb"@ {
        let i = choose|i: int|
            0 <= i < options@.len() && (#[trigger] options@[i]).0@ == "max_size_mb"@;
        lemma_given(options@, i);
    } else {
        lemma_entries_model_absent(options@, RETIRED_OPTION@);
    }
    lemma_first_unknown(kind, options@);
    lemma_first_unknown_place(kind, options@);
    if first_unknown(kind, options@) is Some {
        let m = choose|m: int|
            {
                &&& 0 <= m < options@.len()
                &&& Some((#[trigger] options@[m]).0@) == first_unknown(kind, options@)
                &&& !sink_has_option(kind, options@[m].0@)
                &&& forall|j: int| 0 <= j < m ==> sink_has_option(kind, (#[trigger] options@[j]).0@)
            };
        assert(options@[m].0@ == first_unknown(kind, options@)->0);
        assert forall|j: int| 0 <= j < m implies to_file && (#[trigger] options@[j]).0@
            == "path"@ by {
            assert(sink_has_option(kind, options@[j].0@));
        }
    } else {
        assert forall|i: int| 0 <= i < options@.len() implies (#[trigger] options@[i]).0@ == "path"@
            && to_file by {
            assert(sink_has_option(kind, options@[i].0@));
        }
    }
}

proof fn lemma_first_unknown_place(kind: SinkKind, options: Seq<(String, Json)>)
    ensures
        first_unknown(kind, options) is Some ==> exists|m: int|
            {
                &&& 0 <= m < options.len()
                &&& Some((#[trigger] options[m]).0@) == first_unknown(kind, options)
                &&& !sink_has_option(kind, options[m].0@)
                &&& forall|j: int| 0 <= j < m ==> sink_has_option(kind, (#[trigger] options[j]).0@)
            },
    decreases options.len(),
{
    if options.len() > 0 {
        if !sink_has_option(kind, options[0].0@) {
            assert(Some(options[0].0@) == first_unknown(kind, options));
        } else {
            let rest = options.skip(1);
            lemma_first_unknown_place(kind, rest);
            if first_unknown(kind, rest) is Some {
                let m = choose|m: int|
                    {
                        &&& 0 <= m < rest.len()
                        &&& Some((#[trigger] rest[m]).0@) == first_unknown(kind, rest)
                        &&& !sink_has_option(kind, rest[m].0@)
                        &&& forall|j: int|
                            0 <= j < m ==> sink_has_option(kind, (#[trigger] rest[j]).0@)
                    };
                assert(options[m + 1] == rest[m]);
                assert forall|j: int| 0 <= j < m + 1 implies sink_has_option(
                    kind,
                    (#[trigger] options[j]).0@,
                ) by {
                    if j > 0 {
                        assert(options[j] == rest[j - 1]);
                    }
                }
            }
        }
    }
}

/// The refusal of an option that the sink does not have names the option, in
/// full.
pub proof fn refusals_name_the_option(error: SinkConfigError)
    requires
        error is UnknownOption,
    ensures
        refusal_text(error@) == "unknown audit sink option `"@ + error->key@ + "`"@,
{
}

/// As many events may wait as are configured, but one at least.
pub proof fn capacity_is_what_is_configured(config: AuditConfig)
    ensures
        config.buffer_size >= 1 ==> config.capacity() == config.buffer_size,
        config.buffer_size == 0 ==> config.capacity() == 1,
{
}

} // verus!
