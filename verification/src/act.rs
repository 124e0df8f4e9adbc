//! Acting on a page: what to look for, what to do with it, and how to try again.
use crate::a11y::text_map;
use crate::logging::{note_models, note_plain, plain_note, LogLevel, Note, NoteModel};
use crate::prompts::{
    action_list, build_act_observe_prompt, variables_part, ACT_HEAD, ACT_MIDDLE, ACT_TAIL,
    SUPPORTED_ACTIONS,
};
use crate::table::Table;
use crate::text::{
    begins_with, blank, copy_opt, eq_ignore_case, is_blank, lower_of, opt_view, replace, replaced,
    starts_with, to_lower, trim, trim_of, views,
};
use crate::types::a11y::opt_json;
use crate::types::page::{
    ActModel, ActOptions, ActResult, FoundModel, ObserveOptions, ObserveResult,
};
use vstd::prelude::*;
use vstd::string::*;

verus! {

/// How a variable is written where its value is wanted.
pub open spec fn token(name: Seq<char>) -> Seq<char> {
    seq!['%'] + name + seq!['%']
}

/// An argument with the value of each variable, in turn, in place of its token.
pub open spec fn substituted(
    argument: Seq<char>,
    names: Seq<Seq<char>>,
    values: Map<Seq<char>, Seq<char>>,
) -> Seq<char>
    decreases names.len(),
{
    if names.len() == 0 {
        argument
    } else {
        replaced(
            substituted(argument, names.drop_last(), values),
            token(names.last()),
            values[names.last()],
        )
    }
}

fn substitute_one(argument: &str, variables: &Table<String>) -> (out: String)
    ensures
        out@ == substituted(argument@, variables.order(), text_map(variables@)),
{
    let mut current = argument.to_owned();
    let total: usize = variables.len();
    let ghost order = variables.order();
    let mut i: usize = 0;
    while i < total
        invariant
            i <= total,
            order == variables.order(),
            total == order.len(),
            current@ == substituted(argument@, order.take(i as int), text_map(variables@)),
        decreases total - i,
    {
        assert(order.take(i + 1).drop_last() =~= order.take(i as int));
        let mut needle = String::new();
        needle.push('%');
        needle.append(variables.key_at(i).as_str());
        needle.push('%');
        assert(needle@ =~= token(order[i as int]));
        current = replace(current.as_str(), needle.as_str(), variables.value_at(i).as_str());
        i += 1;
    }
    assert(order.take(i as int) =~= order);
    current
}

/// Puts the values of the variables in place of their tokens.
pub fn substitute_variables(args: &Vec<String>, variables: &Table<String>) -> (out: Vec<String>)
    ensures
        views(out@) == views(args@).map_values(
            |argument: Seq<char>|
                substituted(argument, variables.order(), text_map(variables@)),
        ),
{
    let ghost f = |argument: Seq<char>|
        substituted(argument, variables.order(), text_map(variables@));
    let mut out: Vec<String> = Vec::new();
    let mut i: usize = 0;
    while i < args.len()
        invariant
            i <= args.len(),
            f == (|argument: Seq<char>|
                substituted(argument, variables.order(), text_map(variables@))),
            views(out@) == views(args@.take(i as int)).map_values(f),
        decreases args.len() - i,
    {
        let ghost before = views(out@);
        let text = substitute_one(args[i].as_str(), variables);
        let ghost added = text@;
        out.push(text);
        assert(views(out@) =~= before.push(added));
        assert(views(args@.take(i + 1)).map_values(f) =~= before.push(added));
        i += 1;
    }
    assert(args@.take(i as int) =~= args@);
    out
}

/// The command to try next after a failure: the description, with the method in
/// front unless it already stands there. There is none where both are blank.
pub open spec fn heal_command(found: FoundModel) -> Option<Seq<char>> {
    let method = match found.method {
        Some(method) => trim_of(method),
        None => trim_of(seq![]),
    };
    let description = trim_of(found.description);
    if method.len() == 0 && description.len() == 0 {
        None
    } else if method.len() == 0 || (description.len() > 0 && begins_with(
        lower_of(description),
        lower_of(method),
    )) {
        Some(description)
    } else {
        Some(trim_of(method + seq![' '] + description))
    }
}

/// Finds the command to try next after a failure.
pub fn build_self_heal_command(result: &ObserveResult) -> (out: Option<String>)
    ensures
        opt_view(out) == heal_command(result@),
{
    let method = match &result.method {
        Some(method) => trim(method.as_str()),
        None => {
            let empty = String::new();
            assert(empty@ =~= Seq::<char>::empty());
            trim(empty.as_str())
        },
    };
    let description = trim(result.description.as_str());
    if method.as_str().is_empty() && description.as_str().is_empty() {
        return None;
    }
    if method.as_str().is_empty() {
        return Some(description);
    }
    if !description.as_str().is_empty() && starts_with(
        to_lower(description.as_str()).as_str(),
        to_lower(method.as_str()).as_str(),
    ) {
        return Some(description);
    }
    let mut combined = method.clone();
    combined.push(' ');
    combined.append(description.as_str());
    assert(combined@ =~= method@ + seq![' '] + description@);
    Some(trim(combined.as_str()))
}

/// One request to act, through all its attempts.
#[derive(Debug)]
pub struct ActFlow {
    options: ActOptions,
    action: String,
    healed: bool,
    attempt: u8,
    self_heal: bool,
}

/// What a request to act stands for: the action asked for, the action tried now,
/// how many attempts have failed, and whether a second one may follow.
#[verifier::ext_equal]
pub struct Attempt {
    pub original: Seq<char>,
    pub current: Seq<char>,
    pub healed: bool,
    pub failed: nat,
    pub self_heal: bool,
}

/// What follows for a request to act.
#[derive(Debug, PartialEq)]
pub enum ActStep {
    /// The request is over.
    Finished(ActResult),
    /// This is to be done on the page.
    Perform(ObserveResult),
    /// The page is to be observed again.
    Retry,
}

/// A failure of the request.
pub open spec fn failure(attempt: Attempt, why: Seq<char>) -> ActModel {
    ActModel {
        success: false,
        message: "Failed to perform act: "@ + why,
        action: attempt.original,
    }
}

/// The success of the request.
pub open spec fn success(found: FoundModel) -> ActModel {
    ActModel {
        success: true,
        message: "Action ["@ + (match found.method {
            Some(method) => method,
            None => "unknown"@,
        }) + "] performed successfully on selector: "@ + found.selector,
        action: if is_blank(found.description) {
            "observe action"@
        } else {
            found.description
        },
    }
}

/// The command of a second attempt: there is one where a second attempt may
/// follow, and a command can be made that is not the action asked for again.
pub open spec fn second_command(attempt: Attempt, found: FoundModel) -> Option<Seq<char>> {
    if !attempt.self_heal || attempt.failed >= 1 {
        None
    } else {
        match heal_command(found) {
            Some(command) if lower_of(trim_of(attempt.original)) != lower_of(trim_of(command)) =>
                Some(command),
            _ => None,
        }
    }
}

/// What is logged after a failed attempt that a second one may follow.
pub open spec fn heal_notes(attempt: Attempt, found: FoundModel) -> Seq<NoteModel> {
    if !attempt.self_heal || attempt.failed >= 1 {
        seq![]
    } else {
        seq![
            match heal_command(found) {
                None => plain_note(
                    LogLevel::Error,
                    "act"@,
                    "Self-heal attempt aborted: could not construct a fallback command"@,
                ),
                Some(command) => if lower_of(trim_of(attempt.original)) == lower_of(
                    trim_of(command),
                ) {
                    plain_note(
                        LogLevel::Error,
                        "act"@,
                        "Self-heal attempt aborted: fallback command matches original action"@,
                    )
                } else {
                    plain_note(
                        LogLevel::Info,
                        "act"@,
                        "Attempting self-heal with command: '"@ + command + "'"@,
                    )
                },
            },
        ]
    }
}

/// The request after a failed attempt.
pub open spec fn retried(attempt: Attempt, command: Seq<char>) -> Attempt {
    Attempt { current: command, healed: true, failed: attempt.failed + 1, ..attempt }
}

impl ActFlow {
    /// The model of the request.
    pub closed spec fn attempt(&self) -> Attempt {
        Attempt {
            original: self.options.action@,
            current: self.action@,
            healed: self.healed,
            failed: self.attempt as nat,
            self_heal: self.self_heal,
        }
    }

    /// The options of the request.
    pub closed spec fn options(&self) -> ActOptions {
        self.options
    }

    #[verifier::type_invariant]
    spec fn few_attempts(self) -> bool {
        self.attempt <= 1
    }

    /// The variables in force: those of the request, until a second attempt.
    pub open spec fn variables(&self) -> Option<&Table<String>> {
        if self.attempt().healed {
            None
        } else {
            match &self.options().variables {
                Some(table) => Some(table),
                None => None,
            }
        }
    }

    /// A request that has not been tried.
    pub fn begin(options: ActOptions, self_heal: bool) -> (out: ActFlow)
        ensures
            out.options() == options,
            out.attempt() == (Attempt {
                original: options.action@,
                current: options.action@,
                healed: false,
                failed: 0,
                self_heal,
            }),
    {
        let action = options.action.clone();
        ActFlow { options, action, healed: false, attempt: 0, self_heal }
    }

    fn current_variables(&self) -> (out: Option<&Table<String>>)
        ensures
            out == self.variables(),
    {
        if self.healed {
            None
        } else {
            match &self.options.variables {
                Some(table) => Some(table),
                None => None,
            }
        }
    }

    /// What the log says at the start of an attempt.
    pub fn start_message(&self) -> (out: String)
        ensures
            out@ == (if self.attempt().failed == 0 {
                "Starting action for task: '"@ + self.attempt().current + "'"@
            } else {
                "Self-heal attempt 2 for task: '"@ + self.attempt().current + "'"@
            }),
    {
        proof {
            use_type_invariant(self);
        }
        let mut out = if self.attempt == 0 {
            "Starting action for task: '".to_owned()
        } else {
            "Self-heal attempt 2 for task: '".to_owned()
        };
        out.append(self.action.as_str());
        out.append("'");
        out
    }

    /// How the page is to be observed for this attempt.
    pub fn observe_options(&self) -> (out: ObserveOptions)
        ensures
            out.instruction@ == ACT_HEAD@ + self.attempt().current + ACT_MIDDLE@ + action_list(
                SUPPORTED_ACTIONS@,
            ) + ACT_TAIL@ + variables_part(self.variables()),
            out.model_name == self.options().model_name,
            out.draw_overlay == Some(false),
            out.dom_settle_timeout_ms == self.options().dom_settle_timeout_ms,
            opt_json(out.model_client_options) == opt_json(self.options().model_client_options),
    {
        ObserveOptions {
            instruction: build_act_observe_prompt(
                self.action.as_str(),
                &SUPPORTED_ACTIONS,
                self.current_variables(),
            ),
            model_name: copy_opt(&self.options.model_name),
            draw_overlay: Some(false),
            dom_settle_timeout_ms: self.options.dom_settle_timeout_ms,
            model_client_options: match &self.options.model_client_options {
                Some(options) => Some(options.copy()),
                None => None,
            },
        }
    }

    /// Takes what was found on the page. The first of it is to be done, with the
    /// values of the variables in its arguments; where nothing was found the
    /// request is over.
    pub fn on_observed(&self, results: Vec<ObserveResult>) -> (out: ActStep)
        ensures
            match out {
                ActStep::Finished(result) => results@.len() == 0 && result@ == (ActModel {
                    success: false,
                    message: "No observe results found for action"@,
                    action: self.attempt().original,
                }),
                ActStep::Perform(found) => results@.len() > 0 && found@ == (FoundModel {
                    arguments: match (results@[0]@.arguments, self.variables()) {
                        (Some(arguments), Some(variables)) => Some(
                            arguments.map_values(
                                |argument: Seq<char>|
                                    substituted(
                                        argument,
                                        variables.order(),
                                        text_map(variables@),
                                    ),
                            ),
                        ),
                        (arguments, _) => arguments,
                    },
                    ..results@[0]@
                }),
                ActStep::Retry => false,
            },
    {
        let mut results = results;
        if results.len() == 0 {
            return ActStep::Finished(
                ActResult {
                    success: false,
                    message: "No observe results found for action".to_owned(),
                    action: self.options.action.clone(),
                },
            );
        }
        let first = results.remove(0);
        let mut selected = ObserveResult {
            selector: first.selector,
            description: first.description,
            backend_node_id: first.backend_node_id,
            method: first.method,
            arguments: None,
        };
        selected.arguments = match (first.arguments, self.current_variables()) {
            (Some(arguments), Some(variables)) => Some(substitute_variables(&arguments, variables)),
            (arguments, _) => arguments,
        };
        ActStep::Perform(selected)
    }

    fn fail(&self, why: &str) -> (out: ActStep)
        ensures
            out matches ActStep::Finished(result) && result@ == failure(self.attempt(), why@),
    {
        let mut message = "Failed to perform act: ".to_owned();
        message.append(why);
        ActStep::Finished(
            ActResult { success: false, message, action: self.options.action.clone() },
        )
    }

    /// Takes what came of doing it: `None` where it went well, else why it did
    /// not. A failure leads to a second attempt at most; what is decided of that
    /// is noted.
    pub fn on_performed(
        &mut self,
        selected: &ObserveResult,
        error: Option<&str>,
        notes: &mut Vec<Note>,
    ) -> (out: ActStep)
        ensures
            final(self).options() == old(self).options(),
            note_models(final(notes)@) == note_models(old(notes)@) + (match error {
                None => seq![],
                Some(_) => heal_notes(old(self).attempt(), selected@),
            }),
            match error {
                None => {
                    &&& final(self).attempt() == old(self).attempt()
                    &&& out matches ActStep::Finished(result) && result@ == success(selected@)
                },
                Some(why) => match second_command(old(self).attempt(), selected@) {
                    Some(command) => out is Retry && final(self).attempt() == retried(
                        old(self).attempt(),
                        command,
                    ),
                    None => {
                        &&& final(self).attempt() == old(self).attempt()
                        &&& out matches ActStep::Finished(result) && result@ == failure(
                            old(self).attempt(),
                            why@,
                        )
                    },
                },
            },
    {
        proof {
            use_type_invariant(&*self);
        }
        assert(note_models(notes@) + Seq::<NoteModel>::empty() =~= note_models(notes@));
        match error {
            None => {
                let label = match &selected.method {
                    Some(method) => method.clone(),
                    None => "unknown".to_owned(),
                };
                let mut message = "Action [".to_owned();
                message.append(label.as_str());
                message.append("] performed successfully on selector: ");
                message.append(selected.selector.as_str());
                let action = if blank(selected.description.as_str()) {
                    "observe action".to_owned()
                } else {
                    selected.description.clone()
                };
                ActStep::Finished(ActResult { success: true, message, action })
            },
            Some(why) => {
                if !self.self_heal || self.attempt >= 1 {
                    return self.fail(why);
                }
                match build_self_heal_command(selected) {
                    None => {
                        note_plain(
                            notes,
                            LogLevel::Error,
                            "act",
                            "Self-heal attempt aborted: could not construct a fallback command".to_owned(),
                        );
                        self.fail(why)
                    },
                    Some(command) => {
                        let asked = trim(self.options.action.as_str());
                        if eq_ignore_case(asked.as_str(), trim(command.as_str()).as_str()) {
                            note_plain(
                                notes,
                                LogLevel::Error,
                                "act",
                                "Self-heal attempt aborted: fallback command matches original action".to_owned(),
                            );
                            return self.fail(why);
                        }
                        let mut message = "Attempting self-heal with command: '".to_owned();
                        message.append(command.as_str());
                        message.append("'");
                        note_plain(notes, LogLevel::Info, "act", message);
                        self.action = command;
                        self.healed = true;
                        self.attempt = 1;
                        ActStep::Retry
                    },
                }
            },
        }
    }
}

/// There are at most two attempts, one where a second is not allowed, and a
/// second attempt never asks for the same action again.
pub proof fn law_at_most_two_attempts(attempt: Attempt, found: FoundModel)
    ensures
        attempt.failed >= 1 ==> second_command(attempt, found) is None,
        !attempt.self_heal ==> second_command(attempt, found) is None,
        second_command(attempt, found) matches Some(command) ==> second_command(
            retried(attempt, command),
            found,
        ) is None && lower_of(trim_of(command)) != lower_of(trim_of(attempt.original)),
{
}

} // verus!
