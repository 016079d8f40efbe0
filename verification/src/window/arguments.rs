//! Asking for what a command button's arguments need.

use vstd::prelude::*;

verus! {

/// What a button's arguments ask for.
#[derive(Clone, Copy, Debug, PartialEq, Eq, Structural)]
pub struct ArgumentInputs {
    pub select_file: bool,
    pub select_dir: bool,
    pub input_text: bool,
}

/// What was given.
#[derive(Clone, Debug, PartialEq, Eq)]
pub struct ButtonArgumentValues {
    pub selected_file: Option<String>,
    pub selected_dir: Option<String>,
    pub input_text: Option<String>,
}

/// What the user is asked for next.
#[derive(Clone, Copy, Debug, PartialEq, Eq, Structural)]
pub enum ArgumentPrompt {
    SelectFile,
    SelectDirectory,
    InputText,
    /// Everything was given.
    Complete,
    /// The user gave up.
    Cancelled,
}

/// What is asked for first: a file, then a directory, then a text.
pub open spec fn first_prompt(inputs: ArgumentInputs) -> ArgumentPrompt {
    if inputs.select_file {
        ArgumentPrompt::SelectFile
    } else {
        prompt_after_file(inputs)
    }
}

pub open spec fn prompt_after_file(inputs: ArgumentInputs) -> ArgumentPrompt {
    if inputs.select_dir {
        ArgumentPrompt::SelectDirectory
    } else {
        prompt_after_directory(inputs)
    }
}

pub open spec fn prompt_after_directory(inputs: ArgumentInputs) -> ArgumentPrompt {
    if inputs.input_text {
        ArgumentPrompt::InputText
    } else {
        ArgumentPrompt::Complete
    }
}

/// Asking for what a button's arguments need.
#[derive(Debug)]
pub struct ArgumentCollection {
    inputs: ArgumentInputs,
    values: ButtonArgumentValues,
    prompt: ArgumentPrompt,
}

impl ArgumentCollection {
    pub closed spec fn spec_inputs(&self) -> ArgumentInputs {
        self.inputs
    }

    pub closed spec fn spec_values(&self) -> ButtonArgumentValues {
        self.values
    }

    pub closed spec fn spec_prompt(&self) -> ArgumentPrompt {
        self.prompt
    }

    /// What was asked for before the current question is there, and nothing
    /// else is.
    pub open spec fn wf(&self) -> bool {
        let inputs = self.spec_inputs();
        let values = self.spec_values();
        match self.spec_prompt() {
            ArgumentPrompt::SelectFile => inputs.select_file && values.selected_file is None
                && values.selected_dir is None && values.input_text is None,
            ArgumentPrompt::SelectDirectory => inputs.select_dir && values.selected_file is Some
                == inputs.select_file && values.selected_dir is None && values.input_text is None,
            ArgumentPrompt::InputText => inputs.input_text && values.selected_file is Some
                == inputs.select_file && values.selected_dir is Some == inputs.select_dir
                && values.input_text is None,
            ArgumentPrompt::Complete => values.selected_file is Some == inputs.select_file
                && values.selected_dir is Some == inputs.select_dir && values.input_text is Some
                == inputs.input_text,
            ArgumentPrompt::Cancelled => true,
        }
    }

    /// Whether something that is asked for was not given yet.
    pub open spec fn is_missing(&self) -> bool {
        let inputs = self.spec_inputs();
        let values = self.spec_values();
        ||| inputs.select_file && values.selected_file is None
        ||| inputs.select_dir && values.selected_dir is None
        ||| inputs.input_text && values.input_text is None
    }

    pub fn new(inputs: ArgumentInputs) -> (collection: Self)
        ensures
            collection.wf(),
            collection.spec_inputs() == inputs,
            collection.spec_prompt() == first_prompt(inputs),
            !(collection.spec_prompt() is Cancelled),
            collection.spec_prompt() is Complete <==> !inputs.select_file && !inputs.select_dir
                && !inputs.input_text,
            collection.spec_values() == (ButtonArgumentValues {
                selected_file: None,
                selected_dir: None,
                input_text: None,
            }),
    {
        let prompt = if inputs.select_file {
            ArgumentPrompt::SelectFile
        } else {
            Self::after_file(inputs)
        };
        ArgumentCollection {
            inputs,
            values: ButtonArgumentValues {
                selected_file: None,
                selected_dir: None,
                input_text: None,
            },
            prompt,
        }
    }

    fn after_file(inputs: ArgumentInputs) -> (prompt: ArgumentPrompt)
        ensures
            prompt == prompt_after_file(inputs),
            prompt is SelectDirectory <==> inputs.select_dir,
            prompt is InputText <==> !inputs.select_dir && inputs.input_text,
            prompt is Complete <==> !inputs.select_dir && !inputs.input_text,
    {
        if inputs.select_dir {
            ArgumentPrompt::SelectDirectory
        } else {
            Self::after_directory(inputs)
        }
    }

    fn after_directory(inputs: ArgumentInputs) -> (prompt: ArgumentPrompt)
        ensures
            prompt == prompt_after_directory(inputs),
            prompt is InputText <==> inputs.input_text,
            prompt is Complete <==> !inputs.input_text,
    {
        if inputs.input_text {
            ArgumentPrompt::InputText
        } else {
            ArgumentPrompt::Complete
        }
    }

    pub fn prompt(&self) -> (prompt: ArgumentPrompt)
        ensures
            prompt == self.spec_prompt(),
    {
        self.prompt
    }

    /// Takes the answer to the current question; none means that the user gives
    /// up.
    pub fn answer(&mut self, answer: Option<String>)
        requires
            old(self).wf(),
        ensures
            final(self).wf(),
            final(self).spec_inputs() == old(self).spec_inputs(),
            answered(*old(self), answer, *final(self)),
            final(self).spec_prompt() is Cancelled <==> (old(self).spec_prompt() is Cancelled
                || answer is None && !(old(self).spec_prompt() is Complete)),
            answer is Some && !(old(self).spec_prompt() is Cancelled) ==> (
            final(self).spec_prompt() is Complete <==> !final(self).is_missing()),
            match (old(self).spec_prompt(), answer) {
                (ArgumentPrompt::Complete, _) => *final(self) == *old(self),
                (ArgumentPrompt::Cancelled, _) => *final(self) == *old(self),
                (_, None) => final(self).spec_prompt() is Cancelled,
                (ArgumentPrompt::SelectFile, Some(_)) => {
                    &&& final(self).spec_prompt() == prompt_after_file(old(self).spec_inputs())
                    &&& final(self).spec_values() == (ButtonArgumentValues {
                        selected_file: answer,
                        ..old(self).spec_values()
                    })
                },
                (ArgumentPrompt::SelectDirectory, Some(_)) => {
                    &&& final(self).spec_prompt() == prompt_after_directory(
                        old(self).spec_inputs(),
                    )
                    &&& final(self).spec_values() == (ButtonArgumentValues {
                        selected_dir: answer,
                        ..old(self).spec_values()
                    })
                },
                (ArgumentPrompt::InputText, Some(_)) => {
                    &&& final(self).spec_prompt() is Complete
                    &&& final(self).spec_values() == (ButtonArgumentValues {
                        input_text: answer,
                        ..old(self).spec_values()
                    })
                },
            },
    {
        match self.prompt {
            ArgumentPrompt::Complete => {},
            ArgumentPrompt::Cancelled => {},
            prompt => match answer {
                None => {
                    self.prompt = ArgumentPrompt::Cancelled;
                },
                Some(value) => match prompt {
                    ArgumentPrompt::SelectFile => {
                        self.values.selected_file = Some(value);
                        self.prompt = Self::after_file(self.inputs);
                    },
                    ArgumentPrompt::SelectDirectory => {
                        self.values.selected_dir = Some(value);
                        self.prompt = Self::after_directory(self.inputs);
                    },
                    _ => {
                        self.values.input_text = Some(value);
                        self.prompt = ArgumentPrompt::Complete;
                    },
                },
            },
        }
    }

    /// What was given, once everything was.
    pub fn collect_values(self) -> (values: Option<ButtonArgumentValues>)
        requires
            self.wf(),
        ensures
            values is Some == self.spec_prompt() is Complete,
            values is Some ==> values->0 == self.spec_values(),
            values is Some ==> (values->0).selected_file is Some == self.spec_inputs().select_file
                && (values->0).selected_dir is Some == self.spec_inputs().select_dir
                && (values->0).input_text is Some == self.spec_inputs().input_text,
    {
        match self.prompt {
            ArgumentPrompt::Complete => Some(self.values),
            _ => None,
        }
    }
}

/// Asking begins with a question that is asked for, the file before the directory and
/// the directory before the text. Where nothing is asked for, everything was given from
/// the start. Nobody gave up before they were asked.
pub proof fn law_first_question_is_asked_for(inputs: ArgumentInputs)
    ensures
        first_prompt(inputs) is SelectFile <==> inputs.select_file,
        first_prompt(inputs) is SelectDirectory <==> !inputs.select_file && inputs.select_dir,
        first_prompt(inputs) is InputText <==> !inputs.select_file && !inputs.select_dir
            && inputs.input_text,
        first_prompt(inputs) is Complete <==> !inputs.select_file && !inputs.select_dir
            && !inputs.input_text,
        !(first_prompt(inputs) is Cancelled),
{
}

/// After the file, and after the directory, comes the next thing that is asked for; where
/// nothing more is, everything was given. An answer never makes the user give up.
pub proof fn law_answers_lead_to_the_next_question(inputs: ArgumentInputs)
    ensures
        prompt_after_file(inputs) is SelectDirectory <==> inputs.select_dir,
        prompt_after_file(inputs) is InputText <==> !inputs.select_dir && inputs.input_text,
        prompt_after_file(inputs) is Complete <==> !inputs.select_dir && !inputs.input_text,
        !(prompt_after_file(inputs) is Cancelled),
        !(prompt_after_file(inputs) is SelectFile),
        prompt_after_directory(inputs) is InputText <==> inputs.input_text,
        prompt_after_directory(inputs) is Complete <==> !inputs.input_text,
        !(prompt_after_directory(inputs) is Cancelled),
        !(prompt_after_directory(inputs) is SelectFile),
        !(prompt_after_directory(inputs) is SelectDirectory),
{
}

/// What a collection is after an answer: the answer is kept where the question put it,
/// and the next question is the one that follows; without an answer the user gave up.
/// Nothing changes once nothing is asked any more.
pub open spec fn answered(
    before: ArgumentCollection,
    answer: Option<String>,
    after: ArgumentCollection,
) -> bool {
    let held = before.spec_values();
    &&& after.spec_inputs() == before.spec_inputs()
    &&& match (before.spec_prompt(), answer) {
        (ArgumentPrompt::Complete, _) => after == before,
        (ArgumentPrompt::Cancelled, _) => after == before,
        (_, None) => after.spec_prompt() is Cancelled,
        (ArgumentPrompt::SelectFile, Some(_)) => {
            &&& after.spec_prompt() == prompt_after_file(before.spec_inputs())
            &&& after.spec_values() == (ButtonArgumentValues { selected_file: answer, ..held })
        },
        (ArgumentPrompt::SelectDirectory, Some(_)) => {
            &&& after.spec_prompt() == prompt_after_directory(before.spec_inputs())
            &&& after.spec_values() == (ButtonArgumentValues { selected_dir: answer, ..held })
        },
        (ArgumentPrompt::InputText, Some(_)) => {
            &&& after.spec_prompt() is Complete
            &&& after.spec_values() == (ButtonArgumentValues { input_text: answer, ..held })
        },
    }
}

/// The user has given up exactly where a question was left without an answer, now or
/// earlier. After an answer, everything was given exactly where nothing that is asked
/// for is missing; otherwise the next question asks for something that is missing.
pub proof fn law_only_missing_answers_cancel(
    before: ArgumentCollection,
    answer: Option<String>,
    after: ArgumentCollection,
)
    requires
        before.wf(),
        answered(before, answer, after),
    ensures
        after.spec_prompt() is Cancelled <==> (before.spec_prompt() is Cancelled || answer is None
            && !(before.spec_prompt() is Complete)),
        answer is Some && !(before.spec_prompt() is Cancelled) ==> (after.spec_prompt() is Complete
            <==> !after.is_missing()),
        after.spec_prompt() is SelectFile ==> after.spec_inputs().select_file
            && after.spec_values().selected_file is None,
        after.spec_prompt() is SelectDirectory ==> after.spec_inputs().select_dir
            && after.spec_values().selected_dir is None,
        after.spec_prompt() is InputText ==> after.spec_inputs().input_text
            && after.spec_values().input_text is None,
{
}

/// Whoever answers all questions gets through: the answers are there in the end, each as
/// what it was asked for, and what was not asked for is not there.
pub proof fn law_all_answers_are_collected(
    start: ArgumentCollection,
    first: String,
    after_first: ArgumentCollection,
    second: String,
    after_second: ArgumentCollection,
    third: String,
    after_third: ArgumentCollection,
)
    requires
        start.spec_prompt() == first_prompt(start.spec_inputs()),
        start.spec_values() == (ButtonArgumentValues {
            selected_file: None,
            selected_dir: None,
            input_text: None,
        }),
        answered(start, Some(first), after_first),
        answered(after_first, Some(second), after_second),
        answered(after_second, Some(third), after_third),
    ensures
        ({
            let inputs = start.spec_inputs();
            let values = after_third.spec_values();
            &&& after_third.spec_prompt() is Complete
            &&& values.selected_file == (if inputs.select_file {
                Some(first)
            } else {
                None
            })
            &&& values.selected_dir == (if !inputs.select_dir {
                None
            } else if inputs.select_file {
                Some(second)
            } else {
                Some(first)
            })
            &&& values.input_text == (if !inputs.input_text {
                None
            } else if inputs.select_file && inputs.select_dir {
                Some(third)
            } else if inputs.select_file || inputs.select_dir {
                Some(second)
            } else {
                Some(first)
            })
        }),
{
}

} // verus!
