//! What a workflow hands over while it runs.
use vstd::prelude::*;

use crate::text::same_text;

verus! {

/// One finished document.
#[derive(Debug)]
pub struct BuildOutput {
    pub id: String,
    pub json: String,
    /// "workflow" or "action"
    pub output_type: String,
}

/// The texts in a [`BuildOutput`].
pub struct BuildOutputView {
    pub id: Seq<char>,
    pub json: Seq<char>,
    pub output_type: Seq<char>,
}

impl View for BuildOutput {
    type V = BuildOutputView;

    open spec fn view(&self) -> BuildOutputView {
        BuildOutputView { id: self.id@, json: self.json@, output_type: self.output_type@ }
    }
}

impl Clone for BuildOutput {
    fn clone(&self) -> (copy: Self)
        ensures
            copy@ == self@,
    {
        BuildOutput {
            id: self.id.clone(),
            json: self.json.clone(),
            output_type: self.output_type.clone(),
        }
    }
}

/// One call of the build function by a script: the arguments as they came. The
/// third may be left out.
#[derive(Debug)]
pub struct BuildCall {
    pub id: String,
    pub json: String,
    pub output_type: Option<String>,
}

/// The texts in a [`BuildCall`].
pub struct BuildCallView {
    pub id: Seq<char>,
    pub json: Seq<char>,
    pub output_type: Option<Seq<char>>,
}

impl View for BuildCall {
    type V = BuildCallView;

    open spec fn view(&self) -> BuildCallView {
        BuildCallView {
            id: self.id@,
            json: self.json@,
            output_type: match self.output_type {
                Some(output_type) => Some(output_type@),
                None => None,
            },
        }
    }
}

/// The document that a call stands for: a workflow, unless the call says otherwise.
pub open spec fn output_of(call: BuildCallView) -> BuildOutputView {
    BuildOutputView {
        id: call.id,
        json: call.json,
        output_type: match call.output_type {
            Some(output_type) => output_type,
            None => "workflow"@,
        },
    }
}

/// The texts in a list of calls.
pub open spec fn call_views(calls: Seq<BuildCall>) -> Seq<BuildCallView> {
    Seq::new(calls.len(), |i: int| calls[i]@)
}

/// The texts in a list of documents.
pub open spec fn output_views(outputs: Seq<BuildOutput>) -> Seq<BuildOutputView> {
    Seq::new(outputs.len(), |i: int| outputs[i]@)
}

/// The documents that a list of calls stands for, in the order of the calls.
pub open spec fn outputs_of(calls: Seq<BuildCallView>) -> Seq<BuildOutputView> {
    Seq::new(calls.len(), |i: int| output_of(calls[i]))
}

/// The types that a document can have.
pub open spec fn is_output_type(output_type: Seq<char>) -> bool {
    output_type == "workflow"@ || output_type == "action"@
}

/// Whether every call asks for a document of a known type.
pub open spec fn typed(calls: Seq<BuildCallView>) -> bool {
    forall|i: int|
        0 <= i < calls.len() ==> is_output_type((#[trigger] output_of(calls[i])).output_type)
}

/// Whether `output_type` is the first type that is not known among those that the calls
/// ask for.
pub open spec fn is_first_unknown(calls: Seq<BuildCallView>, output_type: Seq<char>) -> bool {
    exists|i: int|
        0 <= i < calls.len() && typed(calls.take(i)) && !is_output_type(output_type)
            && output_type == (#[trigger] output_of(calls[i])).output_type
}

/// The calls either all ask for known types, or there is a first type that is not
/// known, and only one.
pub proof fn law_first_unknown(calls: Seq<BuildCallView>, a: Seq<char>, b: Seq<char>)
    ensures
        typed(calls) <==> !exists|output_type: Seq<char>| #[trigger]
            is_first_unknown(calls, output_type),
        is_first_unknown(calls, a) && is_first_unknown(calls, b) ==> a == b,
    decreases calls.len(),
{
    if calls.len() > 0 {
        let front = calls.drop_last();
        let last = output_of(calls.last()).output_type;
        law_first_unknown(front, a, b);
        assert forall|t: Seq<char>| is_first_unknown(front, t) implies #[trigger] is_first_unknown(
            calls,
            t,
        ) by {
            let i = choose|i: int|
                0 <= i < front.len() && typed(front.take(i)) && t == (#[trigger] output_of(
                    front[i],
                )).output_type;
            assert(front.take(i) == calls.take(i));
            assert(t == output_of(calls[i]).output_type);
        }
        if typed(calls) {
            assert forall|t: Seq<char>| !#[trigger] is_first_unknown(calls, t) by {
                assert(forall|i: int|
                    0 <= i < calls.len() ==> is_output_type(
                        (#[trigger] output_of(calls[i])).output_type,
                    ));
            }
        } else if !typed(front) {
            let t = choose|t: Seq<char>| #[trigger] is_first_unknown(front, t);
            assert(is_first_unknown(calls, t));
        } else {
            assert(calls.take(calls.len() - 1) == front);
            if is_output_type(last) {
                assert forall|i: int| 0 <= i < calls.len() implies is_output_type(
                    (#[trigger] output_of(calls[i])).output_type,
                ) by {
                    if i < front.len() {
                        assert(is_output_type(output_of(front[i]).output_type));
                    }
                }
            }
            assert(output_of(calls[calls.len() - 1]).output_type == last);
            assert(is_first_unknown(calls, last));
        }
        if is_first_unknown(calls, a) && is_first_unknown(calls, b) {
            let i = choose|i: int|
                0 <= i < calls.len() && typed(calls.take(i)) && a == (#[trigger] output_of(
                    calls[i],
                )).output_type;
            let j = choose|j: int|
                0 <= j < calls.len() && typed(calls.take(j)) && b == (#[trigger] output_of(
                    calls[j],
                )).output_type;
            if i < j {
                assert(calls.take(j)[i] == calls[i]);
                assert(is_output_type(output_of(calls.take(j)[i]).output_type));
            } else if j < i {
                assert(calls.take(i)[j] == calls[j]);
                assert(is_output_type(output_of(calls.take(i)[j]).output_type));
            }
        }
    }
}

/// Every call gives one document, and further calls leave the documents before them
/// as they are. Calls that ask for known types still do so when they follow each other.
pub proof fn law_outputs_follow_calls(calls: Seq<BuildCallView>, further: Seq<BuildCallView>)
    ensures
        outputs_of(calls).len() == calls.len(),
        outputs_of(calls + further) == outputs_of(calls) + outputs_of(further),
        typed(calls + further) <==> typed(calls) && typed(further),
{
    let all = calls + further;
    assert(outputs_of(all) == outputs_of(calls) + outputs_of(further));
    if typed(all) {
        assert forall|i: int| 0 <= i < calls.len() implies is_output_type(
            (#[trigger] output_of(calls[i])).output_type,
        ) by {
            assert(all[i] == calls[i]);
        }
        assert forall|i: int| 0 <= i < further.len() implies is_output_type(
            (#[trigger] output_of(further[i])).output_type,
        ) by {
            assert(all[calls.len() + i] == further[i]);
        }
    }
}

/// Whether each of these documents has a known type.
pub open spec fn all_typed(outputs: Seq<BuildOutput>) -> bool {
    forall|i: int| 0 <= i < outputs.len() ==> is_output_type((#[trigger] outputs[i]).output_type@)
}

/// The documents of calls that ask for known types have known types.
pub proof fn law_typed(outputs: Seq<BuildOutput>, calls: Seq<BuildCallView>)
    requires
        typed(calls),
        output_views(outputs) == outputs_of(calls),
    ensures
        all_typed(outputs),
{
    assert(output_views(outputs).len() == outputs.len());
    assert(outputs_of(calls).len() == calls.len());
    assert forall|i: int| 0 <= i < outputs.len() implies is_output_type(
        (#[trigger] outputs[i]).output_type@,
    ) by {
        assert(output_views(outputs)[i] == outputs[i]@);
        assert(outputs_of(calls)[i] == output_of(calls[i]));
    }
}

/// Notes one call of the build function behind those noted before.
pub fn record_call(calls: &mut Vec<BuildCall>, id: String, json: String, output_type: Option<String>)
    ensures
        final(calls)@ == old(calls)@.push((BuildCall { id, json, output_type })),
{
    calls.push(BuildCall { id, json, output_type });
}

/// The document that a call stands for, or the type that it asks for if that is not
/// known.
pub fn build_output(call: BuildCall) -> (output: Result<BuildOutput, String>)
    ensures
        match output {
            Ok(output) => output@ == output_of(call@) && is_output_type(output@.output_type),
            Err(output_type) => output_type@ == output_of(call@).output_type && !is_output_type(
                output_type@,
            ),
        },
        ({
            let asked = match call.output_type {
                Some(output_type) => output_type@,
                None => "workflow"@,
            };
            match output {
                Ok(output) => {
                    &&& output.id@ == call.id@
                    &&& output.json@ == call.json@
                    &&& output.output_type@ == asked
                    &&& asked == "workflow"@ || asked == "action"@
                },
                Err(output_type) => {
                    &&& output_type@ == asked
                    &&& asked != "workflow"@ && asked != "action"@
                },
            }
        }),
{
    let output_type = match call.output_type {
        Some(output_type) => output_type,
        None => "workflow".to_owned(),
    };
    if same_text(output_type.as_str(), "workflow") || same_text(output_type.as_str(), "action") {
        Ok(BuildOutput { id: call.id, json: call.json, output_type })
    } else {
        Err(output_type)
    }
}

/// The documents that a list of calls stands for, one for each call and in the
/// order of the calls. If a call asks for a type that is not known, the first such type.
pub fn build_outputs(calls: Vec<BuildCall>) -> (outputs: Result<Vec<BuildOutput>, String>)
    ensures
        match outputs {
            Ok(outputs) => typed(call_views(calls@)) && output_views(outputs@) == outputs_of(
                call_views(calls@),
            ),
            Err(output_type) => !typed(call_views(calls@)) && is_first_unknown(
                call_views(calls@),
                output_type@,
            ),
        },
        ({
            let asked = |i: int|
                match calls@[i].output_type {
                    Some(output_type) => output_type@,
                    None => "workflow"@,
                };
            match outputs {
                Ok(outputs) => {
                    &&& outputs@.len() == calls@.len()
                    &&& forall|i: int|
                        0 <= i < calls@.len() ==> {
                            &&& (#[trigger] outputs@[i]).id@ == calls@[i].id@
                            &&& outputs@[i].json@ == calls@[i].json@
                            &&& outputs@[i].output_type@ == asked(i)
                            &&& asked(i) == "workflow"@ || asked(i) == "action"@
                        }
                },
                Err(output_type) => exists|i: int|
                    {
                        &&& 0 <= i < calls@.len()
                        &&& output_type@ == #[trigger] asked(i)
                        &&& asked(i) != "workflow"@ && asked(i) != "action"@
                        &&& forall|j: int|
                            0 <= j < i ==> #[trigger] asked(j) == "workflow"@ || asked(j)
                                == "action"@
                    },
            }
        }),
{
    let ghost all = calls@;
    let ghost views = call_views(all);
    let ghost asked = |i: int|
        match all[i].output_type {
            Some(output_type) => output_type@,
            None => "workflow"@,
        };
    let mut outputs: Vec<BuildOutput> = Vec::new();
    for call in it: calls
        invariant
            it.seq() == all,
            views == call_views(all),
            outputs@.len() == it.index(),
            output_views(outputs@) == outputs_of(views.take(it.index() as int)),
            typed(views.take(it.index() as int)),
            asked == |i: int|
                match all[i].output_type {
                    Some(output_type) => output_type@,
                    None => "workflow"@,
                },
            forall|i: int|
                0 <= i < it.index() ==> {
                    &&& (#[trigger] outputs@[i]).id@ == all[i].id@
                    &&& outputs@[i].json@ == all[i].json@
                    &&& outputs@[i].output_type@ == asked(i)
                },
            forall|i: int|
                0 <= i < it.index() ==> #[trigger] asked(i) == "workflow"@ || asked(i)
                    == "action"@,
    {
        let ghost i = it.index() as int;
        assert(views[i] == call@);
        match build_output(call) {
            Ok(output) => {
                let ghost before = outputs@;
                outputs.push(output);
                proof {
                    let done = views.take(i);
                    let next = views.take(i + 1);
                    assert(next == done.push(views[i]));
                    assert(output_views(outputs@) == output_views(before).push(output@));
                    assert(outputs_of(next) == outputs_of(done).push(output_of(views[i])));
                    assert(typed(next)) by {
                        assert forall|j: int| 0 <= j < next.len() implies is_output_type(
                            (#[trigger] output_of(next[j])).output_type,
                        ) by {
                            if j < i {
                                assert(is_output_type(output_of(done[j]).output_type));
                            }
                        }
                    }
                }
            },
            Err(output_type) => {
                assert(output_of(views[i]).output_type == output_type@);
                assert(output_type@ == asked(i));
                return Err(output_type);
            },
        }
    }
    assert(views.take(views.len() as int) == views);
    Ok(outputs)
}

/// A document is what its call handed over: the id and the JSON as they came, whatever
/// their length, and the type that was asked for, or "workflow" if none was.
pub proof fn law_document_is_the_call(call: BuildCallView)
    ensures
        output_of(call).id == call.id,
        output_of(call).json == call.json,
        call.output_type matches Some(output_type) ==> output_of(call).output_type == output_type,
        call.output_type is None ==> output_of(call).output_type == "workflow"@,
{
}

/// Of a list of calls there is one document for each, in the place of its call.
pub proof fn law_documents_in_place(calls: Seq<BuildCallView>, i: int)
    requires
        0 <= i < calls.len(),
    ensures
        outputs_of(calls).len() == calls.len(),
        outputs_of(calls)[i].id == calls[i].id,
        outputs_of(calls)[i].json == calls[i].json,
        calls[i].output_type matches Some(output_type) ==> outputs_of(calls)[i].output_type
            == output_type,
        calls[i].output_type is None ==> outputs_of(calls)[i].output_type == "workflow"@,
{
}

/// Calls and documents are seen as they are, field by field.
pub proof fn law_views(calls: Seq<BuildCall>, outputs: Seq<BuildOutput>, i: int)
    ensures
        call_views(calls).len() == calls.len(),
        output_views(outputs).len() == outputs.len(),
        0 <= i < calls.len() ==> {
            &&& call_views(calls)[i].id == calls[i].id@
            &&& call_views(calls)[i].json == calls[i].json@
            &&& match calls[i].output_type {
                Some(output_type) => call_views(calls)[i].output_type == Some(output_type@),
                None => call_views(calls)[i].output_type is None,
            }
        },
        0 <= i < outputs.len() ==> {
            &&& output_views(outputs)[i].id == outputs[i].id@
            &&& output_views(outputs)[i].json == outputs[i].json@
            &&& output_views(outputs)[i].output_type == outputs[i].output_type@
        },
{
}

/// A document is a workflow or an action and nothing else, and calls are typed exactly if
/// each of them asks for one of the two, or for none.
pub proof fn law_output_types(output_type: Seq<char>, calls: Seq<BuildCallView>)
    ensures
        is_output_type(output_type) <==> output_type == "workflow"@ || output_type == "action"@,
        typed(calls) <==> forall|i: int|
            0 <= i < calls.len() ==> ((#[trigger] calls[i]).output_type matches Some(asked)
                ==> asked == "workflow"@ || asked == "action"@),
{
    if typed(calls) {
        assert forall|i: int| 0 <= i < calls.len() implies ((#[trigger] calls[i]).output_type
            matches Some(asked) ==> asked == "workflow"@ || asked == "action"@) by {
            assert(is_output_type(output_of(calls[i]).output_type));
        }
    }
}

/// A type is the first unknown one exactly if a call asked for it, it is neither a workflow
/// nor an action, and no call before asked for such a type.
pub proof fn law_first_unknown_exactly(calls: Seq<BuildCallView>, output_type: Seq<char>)
    ensures
        is_first_unknown(calls, output_type) <==> exists|i: int|
            {
                &&& 0 <= i < calls.len()
                &&& (#[trigger] calls[i]).output_type == Some(output_type)
                &&& output_type != "workflow"@ && output_type != "action"@
                &&& forall|j: int|
                    0 <= j < i ==> ((#[trigger] calls[j]).output_type matches Some(asked) ==> asked
                        == "workflow"@ || asked == "action"@)
            },
{
    if is_first_unknown(calls, output_type) {
        let i = choose|i: int|
            0 <= i < calls.len() && typed(calls.take(i)) && !is_output_type(output_type)
                && output_type == (#[trigger] output_of(calls[i])).output_type;
        law_output_types(output_type, calls.take(i));
        assert forall|j: int| 0 <= j < i implies ((#[trigger] calls[j]).output_type matches Some(
            asked,
        ) ==> asked == "workflow"@ || asked == "action"@) by {
            assert(calls.take(i)[j] == calls[j]);
        }
        assert(calls[i].output_type == Some(output_type));
    }
    if exists|i: int|
        {
            &&& 0 <= i < calls.len()
            &&& (#[trigger] calls[i]).output_type == Some(output_type)
            &&& output_type != "workflow"@ && output_type != "action"@
            &&& forall|j: int|
                0 <= j < i ==> ((#[trigger] calls[j]).output_type matches Some(asked) ==> asked
                    == "workflow"@ || asked == "action"@)
        } {
        let i = choose|i: int|
            {
                &&& 0 <= i < calls.len()
                &&& (#[trigger] calls[i]).output_type == Some(output_type)
                &&& output_type != "workflow"@ && output_type != "action"@
                &&& forall|j: int|
                    0 <= j < i ==> ((#[trigger] calls[j]).output_type matches Some(asked) ==> asked
                        == "workflow"@ || asked == "action"@)
            };
        let front = calls.take(i);
        assert forall|j: int| 0 <= j < front.len() implies ((#[trigger] front[j]).output_type
            matches Some(asked) ==> asked == "workflow"@ || asked == "action"@) by {
            assert(front[j] == calls[j]);
        }
        law_output_types(output_type, front);
        assert(output_of(calls[i]).output_type == output_type);
    }
}

} // verus!
