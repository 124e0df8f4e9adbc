//! The helper script that goes into the pages.
use vstd::prelude::*;

verus! {

/// The helper script. It makes `getScrollableElementXpaths` known to a page: the
/// paths of the elements that scroll, the largest first.
pub const STAGEHAND_DOM_SCRIPT: &'static str = "(() => {
  if (window.__stagehandHelpers) {
    return;
  }
  window.__stagehandHelpers = true;

  const stepOf = (node) => {
    const tag = node.tagName.toLowerCase();
    let position = 1;
    let sibling = node.previousElementSibling;
    while (sibling) {
      if (sibling.tagName === node.tagName) {
        position += 1;
      }
      sibling = sibling.previousElementSibling;
    }
    return `${tag}[${position}]`;
  };

  const xpathOf = (element) => {
    const steps = [];
    let node = element;
    while (node && node.nodeType === Node.ELEMENT_NODE) {
      steps.unshift(stepOf(node));
      node = node.parentElement;
    }
    return `/${steps.join('/')}`;
  };

  const scrolls = (element) => {
    const style = window.getComputedStyle(element);
    const overflow = ['auto', 'scroll', 'overlay'].includes(style.overflowY);
    return overflow && element.scrollHeight > element.clientHeight;
  };

  const getScrollableElements = (limit) => {
    const root = document.documentElement;
    const found = [root];
    for (const element of document.querySelectorAll('*')) {
      if (element !== root && scrolls(element)) {
        found.push(element);
      }
    }
    found.sort((a, b) => b.scrollHeight - a.scrollHeight);
    return limit === undefined ? found : found.slice(0, limit);
  };

  window.getScrollableElementXpaths = async (limit) =>
    getScrollableElements(limit).map(xpathOf);

  window.getNodeFromXpath = (xpath) =>
    document.evaluate(xpath, document, null, XPathResult.FIRST_ORDERED_NODE_TYPE, null)
      .singleNodeValue;
})();
";

/// Gives the helper script.
pub fn stagehand_dom_script() -> (out: &'static str)
    ensures
        out@ == STAGEHAND_DOM_SCRIPT@,
{
    STAGEHAND_DOM_SCRIPT
}

} // verus!
