//! The batch: what is to be done for each line of a subscription, which
//! files a run writes, and which entries of the output directory go.

use crate::codec::{trim, trimmed};
use crate::json::{Json, JsonView};
use crate::merge::{gen_config_json_dict, merged};
use crate::outbound::{rendering_of, LinkError, Rendering};
use crate::text::{chars_of, has_prefix};
use crate::vless::{parse_vless_link, vless_link_rendering, vless_prefix};
use crate::vmess::{parse_vmess_link, vmess_link_rendering, vmess_prefix};
use vstd::prelude::*;
use vstd::string::StringExecFns;

verus! {

/// What is to be done for one line.
#[derive(Debug)]
pub enum LineOutcome {
    /// The line is empty once trimmed: nothing is done.
    Blank,
    /// The line is of neither scheme: it is passed over in silence.
    Skipped { row: String },
    /// The line gave an outbound: the document goes into the file.
    Write { row: String, file_name: String, document: Json },
    /// The line could not be parsed: the error is logged.
    Failed { row: String, error: LinkError },
}

/// What is to be done for one line, in views.
pub enum OutcomeView {
    Blank,
    Skipped { row: Seq<char> },
    Write { row: Seq<char>, file_name: Seq<char>, document: JsonView },
    Failed { row: Seq<char>, error: LinkError },
}

impl View for LineOutcome {
    type V = OutcomeView;

    open spec fn view(&self) -> OutcomeView {
        match self {
            LineOutcome::Blank => OutcomeView::Blank,
            LineOutcome::Skipped { row } => OutcomeView::Skipped { row: row@ },
            LineOutcome::Write { row, file_name, document } => OutcomeView::Write {
                row: row@,
                file_name: file_name@,
                document: document@,
            },
            LineOutcome::Failed { row, error } => OutcomeView::Failed { row: row@, error: *error },
        }
    }
}

/// The document that goes into a file: the outbound alone in raw mode or
/// without a template, and else the template with the outbound first in its
/// list.
pub open spec fn file_document(doc: JsonView, raw: bool, template: Option<JsonView>) -> JsonView {
    match template {
        Some(total) => if raw {
            doc
        } else {
            merged(total, 0, doc)
        },
        None => doc,
    }
}

/// The name of the file of a `vmess://` line.
pub open spec fn vmess_file_name(name: Seq<char>) -> Seq<char> {
    name + ".json"@
}

/// The name of the file of a `vless://` line.
pub open spec fn vless_file_name(name: Seq<char>) -> Seq<char> {
    "VLESS_"@ + name + ".json"@
}

/// What a parsed row leads to.
pub open spec fn row_outcome(
    row: Seq<char>,
    rendering: Rendering,
    vless: bool,
    raw: bool,
    template: Option<JsonView>,
) -> OutcomeView {
    match rendering {
        Ok(pair) => OutcomeView::Write {
            row,
            file_name: if vless {
                vless_file_name(pair.1)
            } else {
                vmess_file_name(pair.1)
            },
            document: file_document(pair.0, raw, template),
        },
        Err(error) => OutcomeView::Failed { row, error },
    }
}

/// What is to be done for a line: the line is trimmed, and the row that is
/// left decides.
pub open spec fn line_outcome(line: Seq<char>, raw: bool, template: Option<JsonView>) -> OutcomeView {
    row_plan(trimmed(line), raw, template)
}

/// What is to be done for a trimmed row: an empty row is blank; a row of one
/// of the two schemes is parsed; any other row is skipped.
pub open spec fn row_plan(row: Seq<char>, raw: bool, template: Option<JsonView>) -> OutcomeView {
    if row.len() == 0 {
        OutcomeView::Blank
    } else if vmess_prefix().is_prefix_of(row) {
        row_outcome(row, vmess_link_rendering(row), false, raw, template)
    } else if vless_prefix().is_prefix_of(row) {
        row_outcome(row, vless_link_rendering(row), true, raw, template)
    } else {
        OutcomeView::Skipped { row }
    }
}

/// What is to be done for each of the lines.
pub open spec fn batch_outcomes(lines: Seq<Seq<char>>, raw: bool, template: Option<JsonView>) -> Seq<
    OutcomeView,
> {
    Seq::new(lines.len(), |i: int| line_outcome(lines[i], raw, template))
}

/// Whether a line parses: it is not blank, it is of one of the two schemes,
/// and its link gives an outbound.
pub open spec fn parses(line: Seq<char>) -> bool {
    let row = trimmed(line);
    &&& row.len() > 0
    &&& if vmess_prefix().is_prefix_of(row) {
        vmess_link_rendering(row) is Ok
    } else {
        vless_prefix().is_prefix_of(row) && vless_link_rendering(row) is Ok
    }
}

/// The number of lines that parse.
pub open spec fn parsed_count(lines: Seq<Seq<char>>) -> nat
    decreases lines.len(),
{
    if lines.len() == 0 {
        0
    } else {
        parsed_count(lines.drop_last()) + if parses(lines.last()) {
            1nat
        } else {
            0nat
        }
    }
}

/// The view of an optional template.
pub open spec fn template_view(template: Option<Json>) -> Option<JsonView> {
    match template {
        Some(t) => Some(t@),
        None => None,
    }
}

/// Turns the result of parsing a row into what is to be done.
pub fn outcome_of(
    row: &str,
    got: Result<(Json, String), LinkError>,
    vless: bool,
    raw: bool,
    template: &Option<Json>,
) -> (outcome: LineOutcome)
    ensures
        outcome@ == row_outcome(row@, rendering_of(got), vless, raw, template_view(*template)),
{
    match got {
        Ok((doc, name)) => {
            let document = match template {
                Some(total) => if raw {
                    doc
                } else {
                    gen_config_json_dict(total.clone(), 0, doc)
                },
                None => doc,
            };
            let file_name = if vless {
                let mut f = "VLESS_".to_owned();
                f.append(name.as_str());
                f.append(".json");
                f
            } else {
                let mut f = name;
                f.append(".json");
                f
            };
            LineOutcome::Write { row: row.to_owned(), file_name, document }
        },
        Err(error) => LineOutcome::Failed { row: row.to_owned(), error },
    }
}

/// Decides what is to be done for one line of a subscription.
pub fn plan_line(line: &str, raw: bool, template: &Option<Json>) -> (outcome: LineOutcome)
    ensures
        outcome@ == line_outcome(line@, raw, template_view(*template)),
{
    plan_row(trim(line), raw, template)
}

/// Decides what is to be done for a trimmed row.
pub fn plan_row(row: &str, raw: bool, template: &Option<Json>) -> (outcome: LineOutcome)
    ensures
        outcome@ == row_plan(row@, raw, template_view(*template)),
{
    if row.is_empty() {
        return LineOutcome::Blank;
    }
    let chars = chars_of(row);
    if has_prefix(&chars, &chars_of("vmess://")) {
        outcome_of(row, parse_vmess_link(row), false, raw, template)
    } else if has_prefix(&chars, &chars_of("vless://")) {
        outcome_of(row, parse_vless_link(row), true, raw, template)
    } else {
        LineOutcome::Skipped { row: row.to_owned() }
    }
}

/// Decides what is to be done for each line of a subscription, line by
/// line: a line that fails does not stop the batch.
pub fn plan_batch(lines: &Vec<String>, raw: bool, template: &Option<Json>) -> (plan: Vec<
    LineOutcome,
>)
    ensures
        plan_view(plan@) == batch_outcomes(names_view(lines@), raw, template_view(*template)),
{
    let mut plan: Vec<LineOutcome> = Vec::new();
    let mut i: usize = 0;
    while i < lines.len()
        invariant
            i <= lines@.len(),
            plan@.len() == i,
            forall|j: int|
                0 <= j < i ==> (#[trigger] plan@[j])@ == line_outcome(
                    lines@[j]@,
                    raw,
                    template_view(*template),
                ),
        decreases lines@.len() - i,
    {
        let outcome = plan_line(lines[i].as_str(), raw, template);
        plan.push(outcome);
        i += 1;
    }
    assert(plan_view(plan@) =~= batch_outcomes(
        names_view(lines@),
        raw,
        template_view(*template),
    ));
    plan
}

/// The names of the files that a plan writes, in the order of the lines.
pub open spec fn written_names(plan: Seq<OutcomeView>) -> Seq<Seq<char>>
    decreases plan.len(),
{
    if plan.len() == 0 {
        Seq::empty()
    } else {
        let before = written_names(plan.drop_last());
        match plan.last() {
            OutcomeView::Write { file_name, .. } => before.push(file_name),
            _ => before,
        }
    }
}

/// The views of a list of outcomes.
pub open spec fn plan_view(plan: Seq<LineOutcome>) -> Seq<OutcomeView> {
    Seq::new(plan.len(), |i: int| plan[i]@)
}

/// The views of a list of strings.
pub open spec fn names_view(names: Seq<String>) -> Seq<Seq<char>> {
    Seq::new(names.len(), |i: int| names[i]@)
}

/// The names of a list, each once, in the order in which they first occur.
pub open spec fn each_once(names: Seq<Seq<char>>) -> Seq<Seq<char>>
    decreases names.len(),
{
    if names.len() == 0 {
        Seq::empty()
    } else {
        let before = each_once(names.drop_last());
        if before.contains(names.last()) {
            before
        } else {
            before.push(names.last())
        }
    }
}

/// The names of the files that a plan writes, each name once, in the order
/// in which the files are first written. Two lines with one display name
/// write one file twice, and its name stands here once. `None` where the
/// plan writes no file, which makes the run a failure: no valid link was
/// found.
pub fn written_files(plan: &Vec<LineOutcome>) -> (names: Option<Vec<String>>)
    ensures
        match names {
            Some(files) => names_view(files@) == each_once(written_names(plan_view(plan@)))
                && files@.len() > 0,
            None => written_names(plan_view(plan@)).len() == 0,
        },
{
    let mut files: Vec<String> = Vec::new();
    let mut i: usize = 0;
    proof {
        assert(plan_view(plan@).take(0) =~= Seq::empty());
        assert(names_view(files@) =~= Seq::empty());
    }
    while i < plan.len()
        invariant
            i <= plan@.len(),
            names_view(files@) == each_once(written_names(plan_view(plan@).take(i as int))),
            files@.len() == 0 <==> written_names(plan_view(plan@).take(i as int)).len() == 0,
        decreases plan@.len() - i,
    {
        proof {
            assert(plan_view(plan@).take(i + 1).drop_last() =~= plan_view(plan@).take(i as int));
            assert(plan_view(plan@).take(i + 1).last() == plan@[i as int]@);
        }
        match &plan[i] {
            LineOutcome::Write { file_name, .. } => {
                let ghost before = written_names(plan_view(plan@).take(i as int));
                proof {
                    assert(before.push(file_name@).drop_last() =~= before);
                    assert(before.push(file_name@).last() == file_name@);
                }
                if !is_among(&files, file_name) {
                    let ghost listed = names_view(files@);
                    files.push(file_name.clone());
                    assert(names_view(files@) =~= listed.push(file_name@));
                } else {
                    assert(files@.len() > 0) by {
                        assert(names_view(files@).len() == files@.len());
                    }
                }
            },
            _ => {},
        }
        i += 1;
    }
    assert(plan_view(plan@).take(i as int) =~= plan_view(plan@));
    if files.len() == 0 {
        None
    } else {
        Some(files)
    }
}

/// The entries that are not among the written names, in their order.
pub open spec fn stale(existing: Seq<Seq<char>>, written: Seq<Seq<char>>) -> Seq<Seq<char>>
    decreases existing.len(),
{
    if existing.len() == 0 {
        Seq::empty()
    } else {
        let before = stale(existing.drop_last(), written);
        if written.contains(existing.last()) {
            before
        } else {
            before.push(existing.last())
        }
    }
}

/// Whether `name` is one of `names`.
fn is_among(names: &Vec<String>, name: &String) -> (yes: bool)
    ensures
        yes == names_view(names@).contains(name@),
{
    let mut i: usize = 0;
    while i < names.len()
        invariant
            i <= names@.len(),
            forall|j: int| 0 <= j < i ==> names_view(names@)[j] != name@,
        decreases names@.len() - i,
    {
        if names[i] == *name {
            assert(names_view(names@)[i as int] == name@);
            return true;
        }
        i += 1;
    }
    false
}

/// The entries of the output directory that a run removes: every entry
/// that the run did not write.
pub fn stale_entries(existing: &Vec<String>, written: &Vec<String>) -> (gone: Vec<String>)
    ensures
        names_view(gone@) == stale(names_view(existing@), names_view(written@)),
{
    let mut gone: Vec<String> = Vec::new();
    let mut i: usize = 0;
    proof {
        assert(names_view(existing@).take(0) =~= Seq::empty());
        assert(names_view(gone@) =~= Seq::empty());
    }
    while i < existing.len()
        invariant
            i <= existing@.len(),
            names_view(gone@) == stale(names_view(existing@).take(i as int), names_view(written@)),
        decreases existing@.len() - i,
    {
        proof {
            assert(names_view(existing@).take(i + 1).drop_last() =~= names_view(existing@).take(
                i as int,
            ));
            assert(names_view(existing@).take(i + 1).last() == existing@[i as int]@);
        }
        if !is_among(written, &existing[i]) {
            let ghost before = names_view(gone@);
            gone.push(existing[i].clone());
            assert(names_view(gone@) =~= before.push(existing@[i as int]@));
        }
        i += 1;
    }
    assert(names_view(existing@).take(i as int) =~= names_view(existing@));
    gone
}

/// A batch writes once for each line that parses, and for no other line;
/// lines with one display name write one file again. So a run over lines of
/// which none parses writes nothing, which is what makes it fail.
pub proof fn lemma_one_file_per_parsed_line(
    lines: Seq<Seq<char>>,
    raw: bool,
    template: Option<JsonView>,
)
    ensures
        written_names(batch_outcomes(lines, raw, template)).len() == parsed_count(lines),
    decreases lines.len(),
{
    if lines.len() > 0 {
        lemma_one_file_per_parsed_line(lines.drop_last(), raw, template);
        assert(batch_outcomes(lines, raw, template).drop_last() =~= batch_outcomes(
            lines.drop_last(),
            raw,
            template,
        ));
        assert(batch_outcomes(lines, raw, template).last() == line_outcome(
            lines.last(),
            raw,
            template,
        ));
    }
}

/// The entries that go are those of the directory that the run did not
/// write.
pub proof fn lemma_stale_is_difference(
    existing: Seq<Seq<char>>,
    written: Seq<Seq<char>>,
    entry: Seq<char>,
)
    ensures
        stale(existing, written).contains(entry) <==> existing.contains(entry)
            && !written.contains(entry),
    decreases existing.len(),
{
    if existing.len() > 0 {
        let init = existing.drop_last();
        lemma_stale_is_difference(init, written, entry);
        let before = stale(init, written);
        if existing.contains(entry) {
            let i = choose|i: int| 0 <= i < existing.len() && existing[i] == entry;
            if i < existing.len() - 1 {
                assert(init[i] == entry);
            }
        }
        if init.contains(entry) {
            let i = choose|i: int| 0 <= i < init.len() && init[i] == entry;
            assert(existing[i] == entry);
        }
        if !written.contains(existing.last()) {
            let now = before.push(existing.last());
            assert(now.last() == existing.last());
            if before.contains(entry) {
                let i = choose|i: int| 0 <= i < before.len() && before[i] == entry;
                assert(now[i] == entry);
            }
            if now.contains(entry) {
                let i = choose|i: int| 0 <= i < now.len() && now[i] == entry;
                if i < before.len() {
                    assert(before[i] == entry);
                }
            }
        }
        assert(existing.last() == existing[existing.len() - 1]);
    }
}

/// A list with each name once holds the names of the list it was made from,
/// and none of them twice.
pub proof fn lemma_each_once(names: Seq<Seq<char>>)
    ensures
        forall|name: Seq<char>| each_once(names).contains(name) <==> names.contains(name),
        forall|i: int, j: int|
            0 <= i < j < each_once(names).len() ==> each_once(names)[i] != each_once(names)[j],
        each_once(names).len() <= names.len(),
        names.len() > 0 ==> each_once(names).len() > 0,
    decreases names.len(),
{
    if names.len() > 0 {
        let init = names.drop_last();
        let last = names.last();
        let before = each_once(init);
        let now = each_once(names);
        lemma_each_once(init);
        assert forall|name: Seq<char>| now.contains(name) <==> names.contains(name) by {
            if names.contains(name) {
                let i = choose|i: int| 0 <= i < names.len() && names[i] == name;
                if i < names.len() - 1 {
                    assert(init[i] == name);
                    assert(init.contains(name));
                    assert(before.contains(name));
                    let k = choose|k: int| 0 <= k < before.len() && before[k] == name;
                    assert(now[k] == name);
                } else if before.contains(last) {
                } else {
                    assert(now[now.len() - 1] == name);
                }
            }
            if now.contains(name) {
                let k = choose|k: int| 0 <= k < now.len() && now[k] == name;
                if k < before.len() {
                    assert(before[k] == name);
                    assert(before.contains(name));
                    assert(init.contains(name));
                    let i = choose|i: int| 0 <= i < init.len() && init[i] == name;
                    assert(names[i] == name);
                } else {
                    assert(names[names.len() - 1] == name);
                }
            }
        }
        assert forall|i: int, j: int| 0 <= i < j < now.len() implies now[i] != now[j] by {
            if j < before.len() {
                assert(now[i] == before[i]);
                assert(now[j] == before[j]);
            } else {
                assert(now[j] == last);
                assert(now[i] == before[i]);
                assert(before.contains(before[i]));
            }
        }
    }
}

/// Which entries go does not depend on how often a name was written.
pub proof fn lemma_stale_ignores_repeats(existing: Seq<Seq<char>>, written: Seq<Seq<char>>)
    ensures
        stale(existing, each_once(written)) == stale(existing, written),
    decreases existing.len(),
{
    if existing.len() > 0 {
        lemma_stale_ignores_repeats(existing.drop_last(), written);
        lemma_each_once(written);
    }
}

/// A line that is not blank and of neither scheme is skipped: it does not
/// parse, it is no failure, and it adds no file to any plan.
pub proof fn lemma_unrecognised_line_is_skipped(
    line: Seq<char>,
    raw: bool,
    template: Option<JsonView>,
)
    requires
        trimmed(line).len() > 0,
        !vmess_prefix().is_prefix_of(trimmed(line)),
        !vless_prefix().is_prefix_of(trimmed(line)),
    ensures
        line_outcome(line, raw, template) == (OutcomeView::Skipped { row: trimmed(line) }),
        !parses(line),
        forall|plan: Seq<OutcomeView>| #[trigger]
            written_names(plan.push(line_outcome(line, raw, template))) == written_names(plan),
{
    assert forall|plan: Seq<OutcomeView>| #[trigger]
        written_names(plan.push(line_outcome(line, raw, template))) == written_names(plan) by {
        assert(plan.push(line_outcome(line, raw, template)).drop_last() =~= plan);
    }
}

} // verus!
