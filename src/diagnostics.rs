//! Diagnostic records, how they are read from the verifier's JSON, and the filter that
//! keeps plain compiler errors apart from the verifier's own failure reports.
use vstd::prelude::*;

use crate::json::{field, int_of, bool_of, items_of, str_of, str_field, JsonValue};
use crate::text::{contains, contains_str};

verus! {

/// The unit (module or crate) a message belongs to.
pub struct DiagnosticTarget {
    pub name: String,
    pub kind: Option<Vec<String>>,
}

/// A source location.
pub struct DiagnosticSpan {
    pub file_name: String,
    pub line_start: i64,
    pub column_start: i64,
    pub line_end: i64,
    pub column_end: i64,
    pub is_primary: bool,
}

pub struct DiagnosticMessage {
    pub level: String,
    pub message: String,
    pub code: Option<String>,
    pub rendered: Option<String>,
    pub spans: Vec<DiagnosticSpan>,
}

/// One message reported by the verifier.
pub struct Diagnostic {
    pub message: DiagnosticMessage,
    pub package_id: Option<String>,
    pub target: Option<DiagnosticTarget>,
}

pub struct TargetView {
    pub name: Seq<char>,
    pub kind: Option<Seq<Seq<char>>>,
}

pub struct SpanView {
    pub file_name: Seq<char>,
    pub line_start: i64,
    pub column_start: i64,
    pub line_end: i64,
    pub column_end: i64,
    pub is_primary: bool,
}

pub struct MessageView {
    pub level: Seq<char>,
    pub message: Seq<char>,
    pub code: Option<Seq<char>>,
    pub rendered: Option<Seq<char>>,
    pub spans: Seq<SpanView>,
}

pub struct DiagnosticView {
    pub message: MessageView,
    pub package_id: Option<Seq<char>>,
    pub target: Option<TargetView>,
}

pub open spec fn opt_str_view(o: Option<String>) -> Option<Seq<char>> {
    match o {
        Some(s) => Some(s@),
        None => None,
    }
}

pub open spec fn strs_view(v: Seq<String>) -> Seq<Seq<char>> {
    v.map_values(|s: String| s@)
}

pub open spec fn spans_view(v: Seq<DiagnosticSpan>) -> Seq<SpanView> {
    v.map_values(|s: DiagnosticSpan| s@)
}

pub open spec fn diagnostics_view(v: Seq<Diagnostic>) -> Seq<DiagnosticView> {
    v.map_values(|d: Diagnostic| d@)
}

impl View for DiagnosticTarget {
    type V = TargetView;

    open spec fn view(&self) -> TargetView {
        TargetView {
            name: self.name@,
            kind: match self.kind {
                Some(k) => Some(strs_view(k@)),
                None => None,
            },
        }
    }
}

impl View for DiagnosticSpan {
    type V = SpanView;

    open spec fn view(&self) -> SpanView {
        SpanView {
            file_name: self.file_name@,
            line_start: self.line_start,
            column_start: self.column_start,
            line_end: self.line_end,
            column_end: self.column_end,
            is_primary: self.is_primary,
        }
    }
}

impl View for DiagnosticMessage {
    type V = MessageView;

    open spec fn view(&self) -> MessageView {
        MessageView {
            level: self.level@,
            message: self.message@,
            code: opt_str_view(self.code),
            rendered: opt_str_view(self.rendered),
            spans: spans_view(self.spans@),
        }
    }
}

impl View for Diagnostic {
    type V = DiagnosticView;

    open spec fn view(&self) -> DiagnosticView {
        DiagnosticView {
            message: self.message@,
            package_id: opt_str_view(self.package_id),
            target: match self.target {
                Some(t) => Some(t@),
                None => None,
            },
        }
    }
}

/// Member `key` as an integer where the key is there, `0` where it holds no `i64`.
pub open spec fn int_or_zero_field(v: JsonValue, key: Seq<char>) -> Option<i64> {
    match field(v, key) {
        Some(f) => Some(
            match int_of(f) {
                Some(i) => i,
                None => 0,
            },
        ),
        None => None,
    }
}

/// Member `key` as a boolean where the key is there, `true` where it holds no boolean.
pub open spec fn bool_or_true_field(v: JsonValue, key: Seq<char>) -> Option<bool> {
    match field(v, key) {
        Some(f) => Some(
            match bool_of(f) {
                Some(b) => b,
                None => true,
            },
        ),
        None => None,
    }
}

/// A span: every key must be there; a number that is no `i64` reads as `0`, and an
/// `is_primary` that is no boolean as `true`.
pub open spec fn span_of(v: JsonValue) -> Option<SpanView> {
    match (
        str_field(v, "file_name"@),
        int_or_zero_field(v, "line_start"@),
        int_or_zero_field(v, "column_start"@),
        int_or_zero_field(v, "line_end"@),
        int_or_zero_field(v, "column_end"@),
        bool_or_true_field(v, "is_primary"@),
    ) {
        (Some(file_name), Some(line_start), Some(column_start), Some(line_end), Some(column_end), Some(is_primary)) => {
            Some(SpanView { file_name, line_start, column_start, line_end, column_end, is_primary })
        },
        _ => None,
    }
}

/// An array of spans, all or nothing.
pub open spec fn spans_of(v: JsonValue) -> Option<Seq<SpanView>> {
    match items_of(v) {
        Some(items) => if forall|i: int| 0 <= i < items.len() ==> (#[trigger] span_of(items[i])) is Some {
            Some(Seq::new(items.len(), |i: int| span_of(items[i])->0))
        } else {
            None
        },
        None => None,
    }
}

/// A message: `level` and `message` are required; a missing or malformed `spans`
/// reads as no spans.
pub open spec fn message_of(v: JsonValue) -> Option<MessageView> {
    match (str_field(v, "level"@), str_field(v, "message"@)) {
        (Some(level), Some(message)) => Some(
            MessageView {
                level,
                message,
                code: str_field(v, "code"@),
                rendered: str_field(v, "rendered"@),
                spans: match field(v, "spans"@) {
                    Some(s) => match spans_of(s) {
                        Some(spans) => spans,
                        None => Seq::empty(),
                    },
                    None => Seq::empty(),
                },
            },
        ),
        _ => None,
    }
}

/// An array of strings, all or nothing.
pub open spec fn kinds_of(v: JsonValue) -> Option<Seq<Seq<char>>> {
    match items_of(v) {
        Some(items) => if forall|i: int| 0 <= i < items.len() ==> (#[trigger] str_of(items[i])) is Some {
            Some(Seq::new(items.len(), |i: int| str_of(items[i])->0))
        } else {
            None
        },
        None => None,
    }
}

/// A target: `name` is required; a `kind` that is there but no array of strings drops
/// the whole target.
pub open spec fn target_of(v: JsonValue) -> Option<TargetView> {
    match str_field(v, "name"@) {
        Some(name) => match field(v, "kind"@) {
            Some(k) => match kinds_of(k) {
                Some(kinds) => Some(TargetView { name, kind: Some(kinds) }),
                None => None,
            },
            None => Some(TargetView { name, kind: None }),
        },
        None => None,
    }
}

/// The object carries a compiler message.
pub open spec fn is_compiler_message(j: JsonValue) -> bool {
    str_field(j, "reason"@) == Some("compiler-message"@)
}

/// The diagnostic that one parsed line of output carries, if any.
pub open spec fn diagnostic_of(j: JsonValue) -> Option<DiagnosticView> {
    if is_compiler_message(j) {
        match field(j, "message"@) {
            Some(m) => match message_of(m) {
                Some(message) => Some(
                    DiagnosticView {
                        message,
                        package_id: match field(j, "package_id"@) {
                            Some(p) => Some(crate::json::json_text(p)),
                            None => None,
                        },
                        target: match field(j, "target"@) {
                            Some(t) => target_of(t),
                            None => None,
                        },
                    },
                ),
                None => None,
            },
            None => None,
        }
    } else {
        None
    }
}

/// Member `key` as an owned string, where it holds one.
pub fn str_member(v: &JsonValue, key: &str) -> (r: Option<String>)
    ensures
        opt_str_view(r) == str_field(*v, key@),
{
    match v.get(key) {
        Some(f) => match f.as_str() {
            Some(s) => Some(s.clone()),
            None => None,
        },
        None => None,
    }
}

fn int_or_zero_member(v: &JsonValue, key: &str) -> (r: Option<i64>)
    ensures
        r == int_or_zero_field(*v, key@),
{
    match v.get(key) {
        Some(f) => match f.as_i64() {
            Some(i) => Some(i),
            None => Some(0),
        },
        None => None,
    }
}

fn bool_or_true_member(v: &JsonValue, key: &str) -> (r: Option<bool>)
    ensures
        r == bool_or_true_field(*v, key@),
{
    match v.get(key) {
        Some(f) => match f.as_bool() {
            Some(b) => Some(b),
            None => Some(true),
        },
        None => None,
    }
}

/// Reads one span.
pub fn parse_span(v: &JsonValue) -> (r: Option<DiagnosticSpan>)
    ensures
        r matches Some(s) ==> span_of(*v) == Some(s@),
        r is None <==> span_of(*v) is None,
{
    let file_name = match str_member(v, "file_name") {
        Some(s) => s,
        None => return None,
    };
    let line_start = match int_or_zero_member(v, "line_start") {
        Some(i) => i,
        None => return None,
    };
    let column_start = match int_or_zero_member(v, "column_start") {
        Some(i) => i,
        None => return None,
    };
    let line_end = match int_or_zero_member(v, "line_end") {
        Some(i) => i,
        None => return None,
    };
    let column_end = match int_or_zero_member(v, "column_end") {
        Some(i) => i,
        None => return None,
    };
    let is_primary = match bool_or_true_member(v, "is_primary") {
        Some(b) => b,
        None => return None,
    };
    Some(DiagnosticSpan { file_name, line_start, column_start, line_end, column_end, is_primary })
}

/// Reads an array of spans; `None` where it is no array or one element is no span.
pub fn parse_spans(spans: &JsonValue) -> (r: Option<Vec<DiagnosticSpan>>)
    ensures
        r matches Some(res) ==> spans_of(*spans) == Some(spans_view(res@)),
        r is None <==> spans_of(*spans) is None,
{
    let items = match spans.as_array() {
        Some(a) => a,
        None => return None,
    };
    let mut res: Vec<DiagnosticSpan> = Vec::new();
    let mut i: usize = 0;
    while i < items.len()
        invariant
            i <= items@.len(),
            items_of(*spans) == Some(items@),
            res@.len() == i,
            forall|j: int| 0 <= j < i ==> (#[trigger] span_of(items@[j])) == Some(res@[j]@),
        decreases items@.len() - i,
    {
        match parse_span(&items[i]) {
            Some(s) => res.push(s),
            None => return None,
        }
        i = i + 1;
    }
    assert(spans_view(res@) =~= Seq::new(items@.len(), |k: int| span_of(items@[k])->0));
    Some(res)
}

/// Reads a message; `None` where `level` or `message` is missing.
pub fn parse_message(message: &JsonValue) -> (r: Option<DiagnosticMessage>)
    ensures
        r matches Some(m) ==> message_of(*message) == Some(m@),
        r is None <==> message_of(*message) is None,
{
    let level = match str_member(message, "level") {
        Some(s) => s,
        None => return None,
    };
    let code = str_member(message, "code");
    let rendered = str_member(message, "rendered");
    let spans = match message.get("spans") {
        Some(s) => match parse_spans(s) {
            Some(v) => v,
            None => Vec::new(),
        },
        None => Vec::new(),
    };
    let text = match str_member(message, "message") {
        Some(s) => s,
        None => return None,
    };
    proof {
        assert(spans_view(Seq::<DiagnosticSpan>::empty()) =~= Seq::<SpanView>::empty());
    }
    Some(DiagnosticMessage { level, message: text, code, rendered, spans })
}

/// Reads a target; `None` where `name` is missing or `kind` is there but no array of strings.
pub fn parse_target(target: &JsonValue) -> (r: Option<DiagnosticTarget>)
    ensures
        r matches Some(t) ==> target_of(*target) == Some(t@),
        r is None <==> target_of(*target) is None,
{
    let name = match str_member(target, "name") {
        Some(s) => s,
        None => return None,
    };
    match target.get("kind") {
        Some(kind) => {
            let items = match kind.as_array() {
                Some(a) => a,
                None => return None,
            };
            let mut kinds: Vec<String> = Vec::new();
            let mut i: usize = 0;
            while i < items.len()
                invariant
                    i <= items@.len(),
                    items_of(*kind) == Some(items@),
                    field(*target, "kind"@) == Some(*kind),
                    str_field(*target, "name"@) == Some(name@),
                    kinds@.len() == i,
                    forall|j: int| 0 <= j < i ==> (#[trigger] str_of(items@[j])) == Some(kinds@[j]@),
                decreases items@.len() - i,
            {
                match items[i].as_str() {
                    Some(s) => kinds.push(s.clone()),
                    None => return None,
                }
                i = i + 1;
            }
            assert(strs_view(kinds@) =~= Seq::new(items@.len(), |k: int| str_of(items@[k])->0));
            Some(DiagnosticTarget { name, kind: Some(kinds) })
        },
        None => Some(DiagnosticTarget { name, kind: None }),
    }
}

/// Phrases by which the verifier reports its own failures rather than a plain
/// compiler error.
pub open spec fn syntax_error_markers() -> Seq<&'static str> {
    seq![
        "error jumping to join point",
        "assignment might be unsafe",
        "call to function that may panic",
        "refinement type error",
        "possible division by zero",
        "possible reminder with a divisor of zero",
        "assertion might fail",
        "parameter inference error at function call",
        "type invariant may not hold (when place is folded)",
        "cannot prove this code safe",
        "arithmetic operation may overflow",
        "arithmetic operation may underflow",
        "unsupported type in function call",
        "invariant cannot be proven",
        "associated refinement",
    ]
}

/// An error-level diagnostic whose text holds none of the verifier's failure phrases.
pub open spec fn is_syntax_error(d: Diagnostic) -> bool {
    &&& d.message.level@ == "error"@
    &&& forall|i: int|
        0 <= i < syntax_error_markers().len() ==> !contains(d.message.message@, #[trigger] syntax_error_markers()[i]@)
}

/// The syntax errors among `ds`, in their order.
pub open spec fn syntax_errors_of(ds: Seq<Diagnostic>) -> Seq<Diagnostic>
    decreases ds.len(),
{
    if ds.len() == 0 {
        Seq::empty()
    } else {
        let before = syntax_errors_of(ds.drop_last());
        if is_syntax_error(ds.last()) {
            before.push(ds.last())
        } else {
            before
        }
    }
}

/// Whether a diagnostic is a plain error rather than one of the verifier's own failures.
pub fn is_syntax_error_diagnostic(d: &Diagnostic) -> (r: bool)
    ensures
        r == is_syntax_error(*d),
{
    let error = "error".to_owned();
    if d.message.level != error {
        return false;
    }
    let markers: Vec<&'static str> = vec![
        "error jumping to join point",
        "assignment might be unsafe",
        "call to function that may panic",
        "refinement type error",
        "possible division by zero",
        "possible reminder with a divisor of zero",
        "assertion might fail",
        "parameter inference error at function call",
        "type invariant may not hold (when place is folded)",
        "cannot prove this code safe",
        "arithmetic operation may overflow",
        "arithmetic operation may underflow",
        "unsupported type in function call",
        "invariant cannot be proven",
        "associated refinement",
    ];
    assert(markers@ =~= syntax_error_markers());
    let mut i: usize = 0;
    while i < markers.len()
        invariant
            i <= markers@.len(),
            markers@ == syntax_error_markers(),
            d.message.level@ == "error"@,
            forall|j: int| 0 <= j < i ==> !contains(d.message.message@, #[trigger] syntax_error_markers()[j]@),
        decreases markers@.len() - i,
    {
        if contains_str(d.message.message.as_str(), markers[i]) {
            return false;
        }
        i = i + 1;
    }
    true
}

/// Keeps the error-level diagnostics whose text holds none of the verifier's failure
/// phrases, in their order and unchanged.
pub fn retain_only_syntax_errors(diagnostics: Vec<Diagnostic>) -> (r: Vec<Diagnostic>)
    ensures
        r@ == syntax_errors_of(diagnostics@),
{
    let ghost all = diagnostics@;
    let mut res: Vec<Diagnostic> = Vec::new();
    for d in it: diagnostics.into_iter()
        invariant
            it.seq() == all,
            res@ == syntax_errors_of(all.take(it.index() as int)),
    {
        proof {
            assert(all.take(it.index() + 1).drop_last() =~= all.take(it.index() as int));
        }
        if is_syntax_error_diagnostic(&d) {
            res.push(d);
        }
    }
    proof {
        assert(all.take(all.len() as int) =~= all);
    }
    res
}

/// Filtering for syntax errors a second time changes nothing.
pub proof fn lemma_syntax_filter_idempotent(ds: Seq<Diagnostic>)
    ensures
        syntax_errors_of(syntax_errors_of(ds)) == syntax_errors_of(ds),
    decreases ds.len(),
{
    if ds.len() > 0 {
        lemma_syntax_filter_idempotent(ds.drop_last());
        let kept = syntax_errors_of(ds.drop_last());
        if is_syntax_error(ds.last()) {
            assert(kept.push(ds.last()).drop_last() =~= kept);
        }
    }
}

/// Every diagnostic the filter keeps is at level `"error"` and holds none of the
/// failure phrases; so a warning never passes, whatever its text.
pub proof fn lemma_syntax_filter_keeps_only_plain_errors(ds: Seq<Diagnostic>)
    ensures
        forall|i: int| 0 <= i < syntax_errors_of(ds).len() ==> is_syntax_error(#[trigger] syntax_errors_of(ds)[i]),
    decreases ds.len(),
{
    if ds.len() > 0 {
        lemma_syntax_filter_keeps_only_plain_errors(ds.drop_last());
        let kept = syntax_errors_of(ds.drop_last());
        assert forall|i: int| 0 <= i < syntax_errors_of(ds).len() implies is_syntax_error(
            #[trigger] syntax_errors_of(ds)[i],
        ) by {
            if i < kept.len() {
                assert(syntax_errors_of(ds)[i] == kept[i]);
            }
        }
    }
}

} // verus!
