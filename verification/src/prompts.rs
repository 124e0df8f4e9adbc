//! The prompts that are sent to the language model.
use crate::a11y::text_map;
use crate::table::Table;
use crate::text::{
    begins_with, blank, has_text, is_blank, join, join_strs, joined, str_views, trim, trim_of,
    views,
};
use vstd::prelude::*;
use vstd::string::*;

verus! {

/// What to look for where nothing is asked for.
pub const DEFAULT_OBSERVE_INSTRUCTION: &'static str = "Find elements that can be used for any future actions in the page. These may be navigation links, related pages, section/subsection links, buttons, or other interactive elements. Be comprehensive: if there are multiple elements that may be relevant for future actions, return all of them.";

/// Stands in front of the user's own instructions.
pub const USER_INSTRUCTIONS_HEAD: &'static str = "\n\n# Custom Instructions Provided by the User\n\nPlease keep the user's instructions in mind when performing actions. If the user's instructions are not relevant to the current task, ignore them.\n\nUser Instructions:\n";

/// The observation task, up to the list of actions.
pub const OBSERVE_SYSTEM_HEAD: &'static str = "You are helping the user automate the browser by finding elements based on what the user wants to observe in the page.\n\nYou will be given:\n1. an instruction of elements to observe\n2. a hierarchical accessibility tree showing the semantic structure of the page. The tree is a hybrid of the DOM and the accessibility tree.\n\nReturn an array of elements that match the instruction if they exist, otherwise return an empty array. Whenever suggesting actions, use supported playwright locator methods or preferably one of the following supported actions:\n";

/// The observation task, behind the list of actions.
pub const OBSERVE_SYSTEM_TAIL: &'static str = "\n\nRespond with JSON: always return a JSON object with an `elements` array describing the matches. Each element must be an object with keys `element_id` (the backend DOM node id as an integer), `description` (a short natural language summary), `method` (one of the supported actions), and `arguments` (an array of strings for the action arguments).";

/// The extraction task, up to what is given.
pub const EXTRACT_SYSTEM_HEAD: &'static str = "You are extracting content on behalf of a user.\nIf a user asks you to extract a 'list' of information, or 'all' information,\nYOU MUST EXTRACT ALL OF THE INFORMATION THAT THE USER REQUESTS.\n\nYou will be given:\n1. An instruction\n2. ";

/// What is given where text is extracted from.
pub const EXTRACT_FROM_TEXT: &'static str = "A text representation of a webpage to extract information from.";

/// What is given where elements are extracted from.
pub const EXTRACT_FROM_DOM: &'static str = "A list of DOM elements to extract from.";

/// How to print, up to the name of what is given.
pub const EXTRACT_PRINT_HEAD: &'static str = "Print the exact text from the ";

/// How to print, behind the name of what is given.
pub const EXTRACT_PRINT_TAIL: &'static str = " with all symbols, characters, and endlines as is.\nPrint null or an empty string if no new information is found.";

/// The name of a page given as text.
pub const EXTRACT_TEXT_NAME: &'static str = "text-rendered webpage";

/// The name of a page given as elements.
pub const EXTRACT_DOM_NAME: &'static str = "DOM+accessibility tree elements";

/// The form of the reply.
pub const EXTRACT_RESPOND: &'static str = "Respond with JSON: your entire reply must be valid JSON that matches the requested schema or structure.";

/// How to read a page given as text.
pub const EXTRACT_TEXT_CARE: &'static str = "Once you are given the text-rendered webpage, you must thoroughly and meticulously analyze it. Be very careful to ensure that you do not miss any important information.";

/// How links are given.
pub const EXTRACT_LINK_IDS: &'static str = "If a user is attempting to extract links or URLs, you MUST respond with ONLY the IDs of the link elements.\nDo not attempt to extract links directly from the text unless absolutely necessary.";

/// The action task, up to the action.
pub const ACT_HEAD: &'static str = "Find the most relevant element to perform an action on given the following action: ";

/// The action task, between the action and the list of actions.
pub const ACT_MIDDLE: &'static str = ".\nProvide an action for this element such as ";

/// The action task, behind the list of actions.
pub const ACT_TAIL: &'static str = ", or any other playwright locator method. Remember that to users, buttons and links look the same in most cases.\nIf the action is completely unrelated to a potential action to be taken on the page, return an empty array.\nONLY return one action. If multiple actions are relevant, return the most relevant one.";

/// The actions that an element can be asked for.
pub const SUPPORTED_ACTIONS: [&'static str; 10] = [
    "click",
    "scrollIntoView",
    "scroll",
    "scrollTo",
    "nextChunk",
    "prevChunk",
    "fill",
    "type",
    "press",
    "selectOptionFromDropdown",
];

/// A list of actions as it is written down.
pub open spec fn action_list(actions: Seq<&str>) -> Seq<char> {
    joined(str_views(actions), ", "@)
}

/// The user's own instructions; there are none where they are blank.
pub open spec fn user_part(instructions: Option<&str>) -> Option<Seq<char>> {
    match instructions {
        Some(text) if !is_blank(text@) => Some(USER_INSTRUCTIONS_HEAD@ + trim_of(text@)),
        _ => None,
    }
}

/// Writes the user's own instructions down.
pub fn build_user_instructions_string(user_instructions: Option<&str>) -> (out: Option<String>)
    ensures
        out is Some <==> user_part(user_instructions) is Some,
        out matches Some(text) ==> user_part(user_instructions) == Some(text@),
{
    match user_instructions {
        Some(text) => {
            let trimmed = trim(text);
            if trimmed.as_str().is_empty() {
                return None;
            }
            let mut out = USER_INSTRUCTIONS_HEAD.to_owned();
            out.append(trimmed.as_str());
            Some(out)
        },
        None => None,
    }
}

/// Writes the task of finding elements down.
pub fn build_observe_system_prompt(user_instructions: Option<&str>) -> (out: String)
    ensures
        out@ == OBSERVE_SYSTEM_HEAD@ + action_list(SUPPORTED_ACTIONS@) + OBSERVE_SYSTEM_TAIL@ + (match user_part(
            user_instructions,
        ) {
            Some(extra) => extra,
            None => Seq::empty(),
        }),
{
    let mut out = OBSERVE_SYSTEM_HEAD.to_owned();
    out.append(join_strs(&SUPPORTED_ACTIONS, ", ").as_str());
    out.append(OBSERVE_SYSTEM_TAIL);
    if let Some(extra) = build_user_instructions_string(user_instructions) {
        out.append(extra.as_str());
    }
    out
}

/// Writes what to find, and where, down.
pub fn build_observe_user_message(instruction: &str, tree_elements: &str) -> (out: String)
    ensures
        out@ == "instruction: "@ + instruction@ + "\nAccessibility Tree: "@ + tree_elements@,
{
    let mut out = "instruction: ".to_owned();
    out.append(instruction);
    out.append("\nAccessibility Tree: ");
    out.append(tree_elements);
    out
}

/// The paragraphs of the extraction task.
pub open spec fn extract_parts(from_text: bool, instructions: Option<&str>) -> Seq<Seq<char>> {
    let parts = seq![
        EXTRACT_SYSTEM_HEAD@ + (if from_text {
            EXTRACT_FROM_TEXT@
        } else {
            EXTRACT_FROM_DOM@
        }),
        EXTRACT_PRINT_HEAD@ + (if from_text {
            EXTRACT_TEXT_NAME@
        } else {
            EXTRACT_DOM_NAME@
        }) + EXTRACT_PRINT_TAIL@,
        EXTRACT_RESPOND@,
        if from_text {
            EXTRACT_TEXT_CARE@
        } else {
            EXTRACT_LINK_IDS@
        },
    ];
    match user_part(instructions) {
        Some(extra) => parts.push(extra),
        None => parts,
    }
}

/// Writes the task of extracting data down.
pub fn build_extract_system_prompt(
    is_using_text_extract: bool,
    user_instructions: Option<&str>,
) -> (out: String)
    ensures
        out@ == joined(extract_parts(is_using_text_extract, user_instructions), "\n\n"@),
{
    let mut first = EXTRACT_SYSTEM_HEAD.to_owned();
    let mut second = EXTRACT_PRINT_HEAD.to_owned();
    let last = if is_using_text_extract {
        first.append(EXTRACT_FROM_TEXT);
        second.append(EXTRACT_TEXT_NAME);
        EXTRACT_TEXT_CARE.to_owned()
    } else {
        first.append(EXTRACT_FROM_DOM);
        second.append(EXTRACT_DOM_NAME);
        EXTRACT_LINK_IDS.to_owned()
    };
    second.append(EXTRACT_PRINT_TAIL);
    let mut parts: Vec<String> = Vec::new();
    parts.push(first);
    parts.push(second);
    parts.push(EXTRACT_RESPOND.to_owned());
    parts.push(last);
    if let Some(extra) = build_user_instructions_string(user_instructions) {
        parts.push(extra);
    }
    assert(views(parts@) =~= extract_parts(is_using_text_extract, user_instructions));
    join(&parts, "\n\n")
}

/// Writes what to extract, and from where, down.
pub fn build_extract_user_prompt(instruction: &str, tree_elements: &str) -> (out: String)
    ensures
        out@ == "Instruction: "@ + instruction@ + "\nDOM+accessibility tree: "@ + tree_elements@,
{
    let mut out = "Instruction: ".to_owned();
    out.append(instruction);
    out.append("\nDOM+accessibility tree: ");
    out.append(tree_elements);
    out
}

/// The lines of the variables, one for each name in turn.
pub open spec fn variable_lines(
    names: Seq<Seq<char>>,
    variables: Map<Seq<char>, Seq<char>>,
) -> Seq<char>
    decreases names.len(),
{
    if names.len() == 0 {
        seq![]
    } else {
        variable_lines(names.drop_last(), variables) + "\n- %"@ + names.last() + "%: "@
            + variables[names.last()]
    }
}

/// What is said about the variables; nothing where there are none.
pub open spec fn variables_part(variables: Option<&Table<String>>) -> Seq<char> {
    match variables {
        Some(table) if table.order().len() > 0 => "\n\nAvailable variables:"@ + variable_lines(
            table.order(),
            text_map(table@),
        ),
        _ => seq![],
    }
}

/// Writes the task of finding the element for an action down.
pub fn build_act_observe_prompt(
    action: &str,
    supported_actions: &[&str],
    variables: Option<&Table<String>>,
) -> (out: String)
    ensures
        out@ == ACT_HEAD@ + action@ + ACT_MIDDLE@ + action_list(supported_actions@) + ACT_TAIL@ + variables_part(
            variables,
        ),
{
    let mut out = ACT_HEAD.to_owned();
    out.append(action);
    out.append(ACT_MIDDLE);
    out.append(join_strs(supported_actions, ", ").as_str());
    out.append(ACT_TAIL);
    let ghost base = out@;
    if let Some(table) = variables {
        let total: usize = table.len();
        if total > 0 {
            out.append("\n\nAvailable variables:");
            let ghost head = out@;
            let mut i: usize = 0;
            assert(head + variable_lines(table.order().take(0), text_map(table@)) =~= head);
            while i < total
                invariant
                    i <= total,
                    total == table.order().len(),
                    out@ == head + variable_lines(table.order().take(i as int), text_map(table@)),
                decreases total - i,
            {
                assert(table.order().take(i + 1).drop_last() =~= table.order().take(i as int));
                out.append("\n- %");
                out.append(table.key_at(i).as_str());
                out.append("%: ");
                out.append(table.value_at(i).as_str());
                i += 1;
                assert(out@ =~= head + variable_lines(table.order().take(i as int), text_map(table@)));
            }
            assert(table.order().take(i as int) =~= table.order());
            assert(out@ =~= base + variables_part(variables));
        }
    }
    assert(base + Seq::<char>::empty() =~= base);
    out
}

/// The instruction to observe by: the user's, unless it is blank.
pub fn effective_observe_instruction<'a>(user_instruction: Option<&'a str>) -> (out: &'a str)
    ensures
        out@ == (match user_instruction {
            Some(text) if !is_blank(text@) => text@,
            _ => DEFAULT_OBSERVE_INSTRUCTION@,
        }),
{
    match user_instruction {
        Some(text) => {
            if blank(text) {
                DEFAULT_OBSERVE_INSTRUCTION
            } else {
                text
            }
        },
        None => DEFAULT_OBSERVE_INSTRUCTION,
    }
}

/// Whether a character stands nowhere in a text.
spec fn lacks(s: Seq<char>, c: char) -> bool {
    forall|i: int| 0 <= i < s.len() ==> #[trigger] s[i] != c
}

/// Whether `s` ends with `tail`.
pub open spec fn ends_with(s: Seq<char>, tail: Seq<char>) -> bool {
    tail.len() <= s.len() && s.skip(s.len() - tail.len()) == tail
}

proof fn lemma_lacks_text(s: Seq<char>, pattern: Seq<char>, k: int)
    requires
        0 <= k < pattern.len(),
        lacks(s, pattern[k]),
    ensures
        !has_text(s, pattern),
{
    if has_text(s, pattern) {
        let i = choose|i: int| 0 <= i <= s.len() && begins_with(#[trigger] s.skip(i), pattern);
        assert(s.skip(i).take(pattern.len() as int)[k] == s[i + k]);
    }
}

proof fn lemma_has_within(before: Seq<char>, s: Seq<char>, after: Seq<char>, pattern: Seq<char>)
    requires
        has_text(s, pattern),
    ensures
        has_text(before + s + after, pattern),
{
    let i = choose|i: int| 0 <= i <= s.len() && begins_with(#[trigger] s.skip(i), pattern);
    let whole = before + s + after;
    assert(whole.skip(before.len() + i).take(pattern.len() as int) =~= s.skip(i).take(
        pattern.len() as int,
    ));
    assert(begins_with(whole.skip(before.len() + i), pattern));
}

proof fn lemma_has_itself(s: Seq<char>)
    ensures
        has_text(s, s),
{
    assert(s.skip(0).take(s.len() as int) =~= s);
    assert(begins_with(s.skip(0), s));
}

/// The extraction task without instructions, in one piece.
spec fn extract_pieces(from_text: bool) -> Seq<char> {
    let sep = "\n\n"@;
    if from_text {
        EXTRACT_SYSTEM_HEAD@ + EXTRACT_FROM_TEXT@ + sep + EXTRACT_PRINT_HEAD@ + EXTRACT_TEXT_NAME@
            + EXTRACT_PRINT_TAIL@ + sep + EXTRACT_RESPOND@ + sep + EXTRACT_TEXT_CARE@
    } else {
        EXTRACT_SYSTEM_HEAD@ + EXTRACT_FROM_DOM@ + sep + EXTRACT_PRINT_HEAD@ + EXTRACT_DOM_NAME@
            + EXTRACT_PRINT_TAIL@ + sep + EXTRACT_RESPOND@ + sep + EXTRACT_LINK_IDS@
    }
}

proof fn lemma_extract_pieces(from_text: bool)
    ensures
        joined(extract_parts(from_text, None), "\n\n"@) == extract_pieces(from_text),
{
    let parts = extract_parts(from_text, None);
    let sep = "\n\n"@;
    reveal_with_fuel(joined, 4);
    assert(parts.drop_last().drop_last().drop_last()[0] == parts[0]);
    assert(joined(parts, sep) =~= parts[0] + sep + parts[1] + sep + parts[2] + sep + parts[3]);
    assert(joined(parts, sep) =~= extract_pieces(from_text));
}

proof fn lemma_shared_pieces()
    ensures
        lacks("\n\n"@, 'D'),
        lacks("\n\n"@, '-'),
        lacks(EXTRACT_SYSTEM_HEAD@, 'D'),
        lacks(EXTRACT_SYSTEM_HEAD@, '-'),
        lacks(EXTRACT_PRINT_HEAD@, 'D'),
        lacks(EXTRACT_PRINT_HEAD@, '-'),
        lacks(EXTRACT_PRINT_TAIL@, 'D'),
        lacks(EXTRACT_PRINT_TAIL@, '-'),
        lacks(EXTRACT_RESPOND@, 'D'),
        lacks(EXTRACT_RESPOND@, '-'),
{
    reveal_strlit("\n\n");
    reveal_strlit("You are extracting content on behalf of a user.\nIf a user asks you to extract a 'list' of information, or 'all' information,\nYOU MUST EXTRACT ALL OF THE INFORMATION THAT THE USER REQUESTS.\n\nYou will be given:\n1. An instruction\n2. ");
    reveal_strlit("Print the exact text from the ");
    reveal_strlit(" with all symbols, characters, and endlines as is.\nPrint null or an empty string if no new information is found.");
    reveal_strlit("Respond with JSON: your entire reply must be valid JSON that matches the requested schema or structure.");
}

proof fn lemma_text_pieces()
    ensures
        lacks(EXTRACT_FROM_TEXT@, 'D'),
        lacks(EXTRACT_TEXT_NAME@, 'D'),
        lacks(EXTRACT_TEXT_CARE@, 'D'),
{
    reveal_strlit("A text representation of a webpage to extract information from.");
    reveal_strlit("text-rendered webpage");
    reveal_strlit("Once you are given the text-rendered webpage, you must thoroughly and meticulously analyze it. Be very careful to ensure that you do not miss any important information.");
}

proof fn lemma_dom_pieces()
    ensures
        lacks(EXTRACT_FROM_DOM@, '-'),
        lacks(EXTRACT_DOM_NAME@, '-'),
        lacks(EXTRACT_LINK_IDS@, '-'),
        has_text(EXTRACT_LINK_IDS@, "ONLY the IDs of the link elements"@),
{
    reveal_strlit("A list of DOM elements to extract from.");
    reveal_strlit("DOM+accessibility tree elements");
    reveal_strlit("If a user is attempting to extract links or URLs, you MUST respond with ONLY the IDs of the link elements.\nDo not attempt to extract links directly from the text unless absolutely necessary.");
    reveal_strlit("ONLY the IDs of the link elements");
    assert(EXTRACT_LINK_IDS@.skip(72).take(33) =~= "ONLY the IDs of the link elements"@);
    assert(begins_with(EXTRACT_LINK_IDS@.skip(72), "ONLY the IDs of the link elements"@));
}

/// The extraction task names what is given: a page as text or a page as elements,
/// never both. Only for elements it asks for the ids of links.
pub proof fn law_extract_prompt_names_its_source(from_text: bool)
    ensures
        ({
            let prompt = joined(extract_parts(from_text, None), "\n\n"@);
            &&& has_text(prompt, "text-rendered webpage"@) == from_text
            &&& has_text(prompt, "DOM+accessibility tree elements"@) == !from_text
            &&& has_text(prompt, "ONLY the IDs of the link elements"@) == !from_text
        }),
{
    let prompt = extract_pieces(from_text);
    let sep = "\n\n"@;
    lemma_extract_pieces(from_text);
    lemma_shared_pieces();
    if from_text {
        lemma_text_pieces();
        let before = EXTRACT_SYSTEM_HEAD@ + EXTRACT_FROM_TEXT@ + sep + EXTRACT_PRINT_HEAD@;
        let after = EXTRACT_PRINT_TAIL@ + sep + EXTRACT_RESPOND@ + sep + EXTRACT_TEXT_CARE@;
        lemma_has_itself(EXTRACT_TEXT_NAME@);
        lemma_has_within(before, EXTRACT_TEXT_NAME@, after, EXTRACT_TEXT_NAME@);
        assert(before + EXTRACT_TEXT_NAME@ + after =~= prompt);
        assert(lacks(prompt, 'D'));
        assert("DOM+accessibility tree elements"@.len() > 0
            && "DOM+accessibility tree elements"@[0] == 'D') by {
            reveal_strlit("DOM+accessibility tree elements");
        }
        assert("ONLY the IDs of the link elements"@.len() > 10
            && "ONLY the IDs of the link elements"@[10] == 'D') by {
            reveal_strlit("ONLY the IDs of the link elements");
        }
        lemma_lacks_text(prompt, "DOM+accessibility tree elements"@, 0);
        lemma_lacks_text(prompt, "ONLY the IDs of the link elements"@, 10);
    } else {
        lemma_dom_pieces();
        let before = EXTRACT_SYSTEM_HEAD@ + EXTRACT_FROM_DOM@ + sep + EXTRACT_PRINT_HEAD@;
        let after = EXTRACT_PRINT_TAIL@ + sep + EXTRACT_RESPOND@ + sep + EXTRACT_LINK_IDS@;
        lemma_has_itself(EXTRACT_DOM_NAME@);
        lemma_has_within(before, EXTRACT_DOM_NAME@, after, EXTRACT_DOM_NAME@);
        assert(before + EXTRACT_DOM_NAME@ + after =~= prompt);
        let front = before + EXTRACT_DOM_NAME@ + EXTRACT_PRINT_TAIL@ + sep + EXTRACT_RESPOND@ + sep;
        lemma_has_within(front, EXTRACT_LINK_IDS@, seq![], "ONLY the IDs of the link elements"@);
        assert(front + EXTRACT_LINK_IDS@ + Seq::<char>::empty() =~= prompt);
        assert(lacks(prompt, '-'));
        assert("text-rendered webpage"@.len() > 4 && "text-rendered webpage"@[4] == '-') by {
            reveal_strlit("text-rendered webpage");
        }
        lemma_lacks_text(prompt, "text-rendered webpage"@, 4);
    }
}

/// The user's own instructions stand behind the extraction task, with no white space
/// around them; blank ones leave the task as it is.
pub proof fn law_extract_prompt_keeps_instructions(from_text: bool, instructions: &str)
    ensures
        ({
            let plain = joined(extract_parts(from_text, None), "\n\n"@);
            let prompt = joined(extract_parts(from_text, Some(instructions)), "\n\n"@);
            &&& is_blank(instructions@) ==> prompt == plain
            &&& !is_blank(instructions@) ==> begins_with(prompt, plain) && ends_with(
                prompt,
                "User Instructions:\n"@ + trim_of(instructions@),
            )
        }),
{
    let parts = extract_parts(from_text, None);
    let plain = joined(parts, "\n\n"@);
    let prompt = joined(extract_parts(from_text, Some(instructions)), "\n\n"@);
    if !is_blank(instructions@) {
        let extra = USER_INSTRUCTIONS_HEAD@ + trim_of(instructions@);
        assert(extract_parts(from_text, Some(instructions)) == parts.push(extra));
        assert(parts.push(extra).drop_last() =~= parts);
        assert(prompt == plain + "\n\n"@ + extra);
        assert(prompt.take(plain.len() as int) =~= plain);
        reveal_strlit("\n\n# Custom Instructions Provided by the User\n\nPlease keep the user's instructions in mind when performing actions. If the user's instructions are not relevant to the current task, ignore them.\n\nUser Instructions:\n");
        reveal_strlit("User Instructions:\n");
        assert(USER_INSTRUCTIONS_HEAD@.skip(194) =~= "User Instructions:\n"@);
        let tail = "User Instructions:\n"@ + trim_of(instructions@);
        assert(prompt.skip(prompt.len() - tail.len()) =~= extra.skip(194));
        assert(extra.skip(194) =~= USER_INSTRUCTIONS_HEAD@.skip(194) + trim_of(instructions@));
    }
}

} // verus!
