//! The scripts that act on a page.
use crate::client::StagehandClientError;
use crate::json::{quote_json, quoted};
use crate::text::{begins_with, lower_of, opt_view, opt_views, str_eq, strip_prefix, to_lower, trim, trim_of};
use crate::types::page::ObserveResult;
use vstd::prelude::*;
use vstd::string::*;

verus! {

/// Finds an element by its path, up to the path.
pub const XPATH_HEAD: &'static str = "(function() {
            const result = document.evaluate(";

/// Finds an element by its path, between the path and what is done with it.
pub const XPATH_MIDDLE: &'static str = ", document, null, XPathResult.FIRST_ORDERED_NODE_TYPE, null);
            const el = result.singleNodeValue;
            if (!el) {
                throw new Error('Element not found for xpath');
            }
            ";

/// Finds an element by its path, behind what is done with it.
pub const XPATH_TAIL: &'static str = "
        })()";

/// Clicks the element.
pub const CLICK_BODY: &'static str = "el.click(); return true;";

/// Scrolls the element into view.
pub const SCROLL_INTO_VIEW_BODY: &'static str = "el.scrollIntoView({ behavior: 'smooth', block: 'center', inline: 'center' }); return true;";

/// Scrolls to a share of the height, up to the share.
pub const SCROLL_TO_HEAD: &'static str = "const parsePercent = (raw) => {
            if (typeof raw === 'number') return Math.max(0, Math.min(raw, 100));
            const cleaned = String(raw).trim().replace('%', '');
            const value = parseFloat(cleaned);
            if (Number.isNaN(value)) return 0;
            return Math.max(0, Math.min(value, 100));
        };
        const yPct = parsePercent(";

/// Scrolls to a share of the height, behind the share.
pub const SCROLL_TO_TAIL: &'static str = ");
        const tag = el.tagName ? el.tagName.toLowerCase() : '';
        if (tag === 'html' || tag === 'body') {
            const scrollHeight = Math.max(document.body.scrollHeight - window.innerHeight, 0);
            const top = scrollHeight * (yPct / 100);
            window.scrollTo({ top, left: window.scrollX, behavior: 'smooth' });
        } else {
            const scrollHeight = Math.max(el.scrollHeight - el.clientHeight, 0);
            const top = scrollHeight * (yPct / 100);
            el.scrollTo({ top, left: el.scrollLeft, behavior: 'smooth' });
        }
        return true;";

/// Scrolls by one view, up to the first direction.
pub const SCROLL_BY_HEAD: &'static str = "const tag = el.tagName ? el.tagName.toLowerCase() : '';
        const delta = (tag === 'html' || tag === 'body')
            ? window.innerHeight * ";

/// Scrolls by one view, between the directions.
pub const SCROLL_BY_MIDDLE: &'static str = "
            : el.clientHeight * ";

/// Scrolls by one view, behind the second direction.
pub const SCROLL_BY_TAIL: &'static str = ";
        if (tag === 'html' || tag === 'body') {
            window.scrollBy({ top: delta, left: 0, behavior: 'smooth' });
        } else {
            el.scrollBy({ top: delta, left: 0, behavior: 'smooth' });
        }
        return true;";

/// Fills the element, up to the text.
pub const FILL_HEAD: &'static str = "const value = ";

/// Fills the element, behind the text.
pub const FILL_TAIL: &'static str = ";
        el.focus();
        if ('value' in el) {
            el.value = value;
        }
        el.dispatchEvent(new Event('input', { bubbles: true }));
        el.dispatchEvent(new Event('change', { bubbles: true }));
        return true;";

/// Presses a key on the element, up to the key.
pub const PRESS_HEAD: &'static str = "const keyValue = ";

/// Presses a key on the element, behind the key.
pub const PRESS_TAIL: &'static str = ";
        el.focus();
        const eventInit = { key: keyValue, bubbles: true, cancelable: true };
        el.dispatchEvent(new KeyboardEvent('keydown', eventInit));
        el.dispatchEvent(new KeyboardEvent('keyup', eventInit));
        return true;";

/// Chooses an option of the element, up to the option.
pub const SELECT_HEAD: &'static str = "const desired = ";

/// Chooses an option of the element, behind the option.
pub const SELECT_TAIL: &'static str = ";
        if (!el || el.tagName.toLowerCase() !== 'select') {
            throw new Error('Target is not a <select> element');
        }
        const options = Array.from(el.options);
        const match = options.find(opt => opt.value === desired || opt.text === desired);
        if (!match && desired) {
            throw new Error('No matching option for value');
        }
        if (match) {
            el.value = match.value;
        }
        el.dispatchEvent(new Event('input', { bubbles: true }));
        el.dispatchEvent(new Event('change', { bubbles: true }));
        return true;";

/// Marks found elements on the page, up to the elements.
pub const OVERLAY_HEAD: &'static str = "(function(elementsJson) {
            try {
                const elements = JSON.parse(elementsJson || '[]');
                document.querySelectorAll('.stagehand-observe-overlay').forEach(el => el.remove());
                if (!Array.isArray(elements) || elements.length === 0) {
                    return true;
                }

                const container = document.createElement('div');
                container.className = 'stagehand-observe-overlay';
                container.style.position = 'fixed';
                container.style.top = '0';
                container.style.left = '0';
                container.style.width = '100%';
                container.style.height = '100%';
                container.style.pointerEvents = 'none';
                container.style.zIndex = '999999';
                document.body.appendChild(container);

                elements.forEach(function(element, index) {
                    const selector = element && element.selector ? String(element.selector) : '';
                    if (!selector) {
                        return;
                    }

                    let target = null;
                    if (selector.startsWith('xpath=')) {
                        const expression = selector.slice(6);
                        const result = document.evaluate(expression, document, null, XPathResult.FIRST_ORDERED_NODE_TYPE, null);
                        target = result.singleNodeValue;
                    } else {
                        target = document.querySelector(selector);
                    }

                    if (!target || !(target instanceof Element)) {
                        return;
                    }

                    const rect = target.getBoundingClientRect();
                    const overlay = document.createElement('div');
                    overlay.style.position = 'absolute';
                    overlay.style.left = rect.left + 'px';
                    overlay.style.top = rect.top + 'px';
                    overlay.style.width = rect.width + 'px';
                    overlay.style.height = rect.height + 'px';
                    overlay.style.border = '2px solid #ff4d4f';
                    overlay.style.backgroundColor = 'rgba(255, 77, 79, 0.15)';
                    overlay.style.boxSizing = 'border-box';
                    overlay.style.pointerEvents = 'none';

                    const label = document.createElement('div');
                    label.textContent = String(index + 1);
                    label.style.position = 'absolute';
                    label.style.left = '0';
                    label.style.top = '-20px';
                    label.style.backgroundColor = '#ff4d4f';
                    label.style.color = '#fff';
                    label.style.padding = '2px 4px';
                    label.style.fontSize = '12px';
                    label.style.borderRadius = '3px';

                    overlay.appendChild(label);
                    container.appendChild(overlay);
                });

                setTimeout(() => {
                    document.querySelectorAll('.stagehand-observe-overlay').forEach(el => el.remove());
                }, 5000);
            } catch (error) {
                console.error('Stagehand overlay error', error);
            }
            return true;
        })(";

/// Marks found elements on the page, behind the elements.
pub const OVERLAY_TAIL: &'static str = ");";

/// What can be done with an element.
#[derive(Clone, Copy, Debug, PartialEq, Eq, Structural)]
pub enum ActionKind {
    Click,
    ScrollIntoView,
    ScrollTo,
    NextChunk,
    PrevChunk,
    Fill,
    Press,
    SelectOption,
    NotSupported,
    Unknown,
}

/// The action that a method names; where no method is given, a click.
pub open spec fn action_of(method: Option<Seq<char>>) -> ActionKind {
    let name = lower_of(
        trim_of(
            match method {
                Some(method) => method,
                None => "click"@,
            },
        ),
    );
    if name == "click"@ {
        ActionKind::Click
    } else if name == "scrollintoview"@ {
        ActionKind::ScrollIntoView
    } else if name == "scroll"@ || name == "scrollto"@ || name == "mouse.wheel"@ {
        ActionKind::ScrollTo
    } else if name == "nextchunk"@ {
        ActionKind::NextChunk
    } else if name == "prevchunk"@ {
        ActionKind::PrevChunk
    } else if name == "fill"@ || name == "type"@ {
        ActionKind::Fill
    } else if name == "press"@ {
        ActionKind::Press
    } else if name == "selectoptionfromdropdown"@ {
        ActionKind::SelectOption
    } else if name == "not-supported"@ {
        ActionKind::NotSupported
    } else {
        ActionKind::Unknown
    }
}

/// Reads the action that a method names.
pub fn parse_action(method: &Option<String>) -> (out: ActionKind)
    ensures
        out == action_of(opt_view(*method)),
{
    let given = match method {
        Some(method) => method.clone(),
        None => "click".to_owned(),
    };
    let name = to_lower(trim(given.as_str()).as_str());
    let n = name.as_str();
    if str_eq(n, "click") {
        ActionKind::Click
    } else if str_eq(n, "scrollintoview") {
        ActionKind::ScrollIntoView
    } else if str_eq(n, "scroll") || str_eq(n, "scrollto") || str_eq(n, "mouse.wheel") {
        ActionKind::ScrollTo
    } else if str_eq(n, "nextchunk") {
        ActionKind::NextChunk
    } else if str_eq(n, "prevchunk") {
        ActionKind::PrevChunk
    } else if str_eq(n, "fill") || str_eq(n, "type") {
        ActionKind::Fill
    } else if str_eq(n, "press") {
        ActionKind::Press
    } else if str_eq(n, "selectoptionfromdropdown") {
        ActionKind::SelectOption
    } else if str_eq(n, "not-supported") {
        ActionKind::NotSupported
    } else {
        ActionKind::Unknown
    }
}

/// The first of the arguments.
pub open spec fn first_argument(arguments: Option<Seq<Seq<char>>>) -> Option<Seq<char>> {
    match arguments {
        Some(list) if list.len() > 0 => Some(list[0]),
        _ => None,
    }
}

/// A text that may be absent, or `other` where it is.
pub open spec fn text_or(text: Option<Seq<char>>, other: Seq<char>) -> Seq<char> {
    match text {
        Some(text) => text,
        None => other,
    }
}

/// What an action does with the element it has found; nothing where the action is
/// not supported.
pub open spec fn action_body(kind: ActionKind, argument: Option<Seq<char>>) -> Option<Seq<char>> {
    match kind {
        ActionKind::Click => Some(CLICK_BODY@),
        ActionKind::ScrollIntoView => Some(SCROLL_INTO_VIEW_BODY@),
        ActionKind::ScrollTo => Some(
            SCROLL_TO_HEAD@ + quoted(text_or(argument, "0"@)) + SCROLL_TO_TAIL@,
        ),
        ActionKind::NextChunk => Some(
            SCROLL_BY_HEAD@ + "1"@ + SCROLL_BY_MIDDLE@ + "1"@ + SCROLL_BY_TAIL@,
        ),
        ActionKind::PrevChunk => Some(
            SCROLL_BY_HEAD@ + "-1"@ + SCROLL_BY_MIDDLE@ + "-1"@ + SCROLL_BY_TAIL@,
        ),
        ActionKind::Fill => Some(FILL_HEAD@ + quoted(text_or(argument, seq![])) + FILL_TAIL@),
        ActionKind::Press => Some(PRESS_HEAD@ + quoted(text_or(argument, seq![])) + PRESS_TAIL@),
        ActionKind::SelectOption => Some(
            SELECT_HEAD@ + quoted(text_or(argument, seq![])) + SELECT_TAIL@,
        ),
        ActionKind::NotSupported => None,
        ActionKind::Unknown => None,
    }
}

/// The script that finds an element by its path and does something with it.
pub open spec fn xpath_script(xpath: Seq<char>, body: Seq<char>) -> Seq<char> {
    XPATH_HEAD@ + quoted(xpath) + XPATH_MIDDLE@ + body + XPATH_TAIL@
}

fn quote(text: &str) -> (out: Result<String, StagehandClientError>)
    ensures
        out is Ok,
        out->Ok_0@ == quoted(text@),
{
    match quote_json(text) {
        Ok(quoted) => Ok(quoted),
        Err(why) => Err(StagehandClientError::Json(why)),
    }
}

/// Writes the script that finds an element by its path and does something with it.
pub fn build_xpath_script(xpath: &str, body: &str) -> (out: Result<String, StagehandClientError>)
    ensures
        out is Ok,
        out->Ok_0@ == xpath_script(xpath@, body@),
{
    let path = match quote(xpath) {
        Ok(path) => path,
        Err(error) => return Err(error),
    };
    let mut script = XPATH_HEAD.to_owned();
    script.append(path.as_str());
    script.append(XPATH_MIDDLE);
    script.append(body);
    script.append(XPATH_TAIL);
    Ok(script)
}

/// Takes the path out of a selector that begins with `xpath=`.
pub fn ensure_xpath(selector: &str) -> (out: Result<String, StagehandClientError>)
    ensures
        match out {
            Ok(path) => begins_with(selector@, "xpath="@) && path@ == selector@.skip(
                "xpath="@.len() as int,
            ),
            Err(error) => {
                &&& !begins_with(selector@, "xpath="@)
                &&& error matches StagehandClientError::Unsupported(why) && why@
                    == "local handlers currently require xpath selectors"@
            },
        },
{
    match strip_prefix(selector, "xpath=") {
        Some(path) => Ok(path),
        None => Err(
            StagehandClientError::Unsupported("local handlers currently require xpath selectors"),
        ),
    }
}

fn around(head: &str, text: &str, tail: &str) -> (out: Result<String, StagehandClientError>)
    ensures
        out is Ok,
        out->Ok_0@ == head@ + quoted(text@) + tail@,
{
    match quote(text) {
        Ok(inner) => {
            let mut out = head.to_owned();
            out.append(inner.as_str());
            out.append(tail);
            Ok(out)
        },
        Err(error) => Err(error),
    }
}

fn scroll_by(direction: &str) -> (out: String)
    ensures
        out@ == SCROLL_BY_HEAD@ + direction@ + SCROLL_BY_MIDDLE@ + direction@ + SCROLL_BY_TAIL@,
{
    let mut out = SCROLL_BY_HEAD.to_owned();
    out.append(direction);
    out.append(SCROLL_BY_MIDDLE);
    out.append(direction);
    out.append(SCROLL_BY_TAIL);
    out
}

/// Why no script performs an action.
pub open spec fn action_refusal(kind: ActionKind) -> Seq<char> {
    match kind {
        ActionKind::NotSupported => "ObserveResult method is not supported in local mode"@,
        ActionKind::Unknown => "local observe result method not supported"@,
        _ => "local handlers currently require xpath selectors"@,
    }
}

/// Writes the script that performs what is to be done with a found element.
pub fn action_script(result: &ObserveResult) -> (out: Result<String, StagehandClientError>)
    ensures
        match (out, action_body(action_of(result@.method), first_argument(result@.arguments))) {
            (Ok(script), Some(body)) => begins_with(result@.selector, "xpath="@) && script@
                == xpath_script(result@.selector.skip("xpath="@.len() as int), body),
            (Err(error), body) => {
                &&& error matches StagehandClientError::Unsupported(why) && why@ == action_refusal(
                    action_of(result@.method),
                )
                &&& body is None || !begins_with(result@.selector, "xpath="@)
            },
            (Ok(_), None) => false,
        },
{
    let kind = parse_action(&result.method);
    let argument: Option<String> = match &result.arguments {
        Some(list) => {
            if list.len() > 0 {
                assert(opt_views(result.arguments)->0[0] == list@[0]@);
                Some(list[0].clone())
            } else {
                None
            }
        },
        None => None,
    };
    assert(opt_view(argument) == first_argument(result@.arguments));
    if kind == ActionKind::NotSupported {
        return Err(
            StagehandClientError::Unsupported("ObserveResult method is not supported in local mode"),
        );
    }
    if kind == ActionKind::Unknown {
        return Err(
            StagehandClientError::Unsupported("local observe result method not supported"),
        );
    }
    let path = match ensure_xpath(result.selector.as_str()) {
        Ok(path) => path,
        Err(error) => return Err(error),
    };
    let text = match &argument {
        Some(argument) => argument.clone(),
        None => {
            if kind == ActionKind::ScrollTo {
                "0".to_owned()
            } else {
                String::new()
            }
        },
    };
    let body = match kind {
        ActionKind::ScrollIntoView => Ok(SCROLL_INTO_VIEW_BODY.to_owned()),
        ActionKind::ScrollTo => around(SCROLL_TO_HEAD, text.as_str(), SCROLL_TO_TAIL),
        ActionKind::NextChunk => Ok(scroll_by("1")),
        ActionKind::PrevChunk => Ok(scroll_by("-1")),
        ActionKind::Fill => around(FILL_HEAD, text.as_str(), FILL_TAIL),
        ActionKind::Press => around(PRESS_HEAD, text.as_str(), PRESS_TAIL),
        ActionKind::SelectOption => around(SELECT_HEAD, text.as_str(), SELECT_TAIL),
        _ => Ok(CLICK_BODY.to_owned()),
    };
    match body {
        Ok(body) => build_xpath_script(path.as_str(), body.as_str()),
        Err(error) => Err(error),
    }
}

/// Writes the script that marks found elements, given them as JSON.
pub fn overlay_script(payload: &str) -> (out: String)
    ensures
        out@ == OVERLAY_HEAD@ + payload@ + OVERLAY_TAIL@,
{
    let mut out = OVERLAY_HEAD.to_owned();
    out.append(payload);
    out.append(OVERLAY_TAIL);
    out
}

} // verus!
