//! The structured plan contract of plan mode: which answers are plans, the
//! plan text they give, and the instruction that asks for them.

use vstd::prelude::*;
use vstd::string::*;

use crate::domain::{ChatMessage, ChatMessageView, Role};
use crate::dup::{seq_view, Duplicate};
use crate::text::{decimal_text, is_blank, push_decimal, text_is_blank};

verus! {

/// A plan-mode answer: a plan text, or steps, or both.
pub struct StructuredPlan {
    pub plan: Option<String>,
    pub steps: Option<Vec<String>>,
}

/// Steps numbered from 1, one per line.
pub open spec fn numbered_steps(steps: Seq<Seq<char>>) -> Seq<char>
    decreases steps.len(),
{
    if steps.len() == 0 {
        Seq::empty()
    } else if steps.len() == 1 {
        "1. "@ + steps[0]
    } else {
        numbered_steps(steps.drop_last()) + "\n"@ + decimal_text(steps.len()) + ". "@ + steps.last()
    }
}

/// The plan text of a structured answer: none when the plan is blank, the
/// steps are empty or one of them is blank, or neither is given; otherwise
/// the plan, else the numbered steps.
pub open spec fn plan_text_spec(plan: Option<Seq<char>>, steps: Option<Seq<Seq<char>>>) -> Option<Seq<char>> {
    if plan matches Some(p) && is_blank(p) {
        None
    } else if steps matches Some(s) && (s.len() == 0 || exists|i: int| 0 <= i < s.len() && is_blank(#[trigger] s[i])) {
        None
    } else {
        match plan {
            Some(p) => Some(p),
            None => match steps {
                Some(s) => Some(numbered_steps(s)),
                None => None,
            },
        }
    }
}

impl StructuredPlan {
    pub open spec fn spec_plan(&self) -> Option<Seq<char>> {
        match self.plan {
            Some(p) => Some(p@),
            None => None,
        }
    }

    pub open spec fn spec_steps(&self) -> Option<Seq<Seq<char>>> {
        match self.steps {
            Some(s) => Some(seq_view(s@)),
            None => None,
        }
    }
}

/// The plan text of a structured answer; see [`plan_text_spec`].
pub fn plan_text(structured: StructuredPlan) -> (r: Option<String>)
    ensures
        match r {
            Some(t) => plan_text_spec(structured.spec_plan(), structured.spec_steps()) == Some(t@),
            None => plan_text_spec(structured.spec_plan(), structured.spec_steps()).is_none(),
        },
{
    match &structured.plan {
        Some(p) => {
            if text_is_blank(p.as_str()) {
                return None;
            }
        },
        None => {},
    }
    match &structured.steps {
        Some(steps) => {
            if steps.len() == 0 {
                proof {
                    assert(structured.spec_steps() == Some(seq_view(steps@)));
                    assert(seq_view(steps@).len() == 0);
                }
                return None;
            }
            let mut i: usize = 0;
            while i < steps.len()
                invariant
                    i <= steps.len(),
                    structured.spec_steps() == Some(seq_view(steps@)),
                    !(structured.spec_plan() matches Some(p) && is_blank(p)),
                    forall|k: int| 0 <= k < i ==> !is_blank(#[trigger] seq_view(steps@)[k]),
                decreases steps.len() - i,
            {
                if text_is_blank(steps[i].as_str()) {
                    proof {
                        assert(is_blank(seq_view(steps@)[i as int]));
                    }
                    return None;
                }
                i = i + 1;
            }
        },
        None => {},
    }
    match structured.plan {
        Some(p) => Some(p),
        None => match structured.steps {
            Some(steps) => Some(number_steps(&steps)),
            None => None,
        },
    }
}

/// Numbers `steps`; see [`numbered_steps`].
pub fn number_steps(steps: &Vec<String>) -> (r: String)
    ensures
        r@ == numbered_steps(seq_view(steps@)),
{
    let ghost s = seq_view(steps@);
    let mut out = String::from_str("");
    let mut i: usize = 0;
    proof {
        reveal_strlit("");
    }
    while i < steps.len()
        invariant
            i <= steps.len(),
            s == seq_view(steps@),
            out@ == numbered_steps(s.take(i as int)),
        decreases steps.len() - i,
    {
        proof {
            assert(s.take(i + 1).drop_last() =~= s.take(i as int));
        }
        if i > 0 {
            out.append("\n");
        }
        push_decimal(&mut out, (i + 1) as u64);
        out.append(". ");
        out.append(steps[i].as_str());
        proof {
            if i == 0 {
                reveal_strlit("");
                assert(decimal_text(1) == "1"@) by {
                    reveal_strlit("1");
                }
                reveal_strlit("1. ");
                reveal_strlit(". ");
                reveal_strlit("1");
                assert(out@ =~= numbered_steps(s.take(1)));
            } else {
                assert(out@ =~= numbered_steps(s.take(i + 1)));
            }
        }
        i = i + 1;
    }
    proof {
        assert(s.take(s.len() as int) =~= s);
    }
    out
}

/// The instruction asking for structured plan output.
pub open spec fn plan_instruction() -> Seq<char> {
    "Return only JSON matching the roci_plan schema. Do not include prose outside the JSON object."@
}

/// Instructions of a plan-mode request: the existing ones (when not empty)
/// followed by the plan instruction after a blank line.
pub open spec fn plan_instructions_spec(existing: Option<Seq<char>>) -> Seq<char> {
    match existing {
        Some(e) => if e.len() > 0 {
            e + "\n\n"@ + plan_instruction()
        } else {
            plan_instruction()
        },
        None => plan_instruction(),
    }
}

/// Merges the plan instruction into `existing` instructions; see [`plan_instructions_spec`].
pub fn plan_instructions(existing: Option<String>) -> (r: String)
    ensures
        r@ == plan_instructions_spec(match existing {
            Some(e) => Some(e@),
            None => None,
        }),
{
    match existing {
        Some(e) => {
            if e.as_str().unicode_len() > 0 {
                let mut r = e;
                r.append("\n\n");
                r.append("Return only JSON matching the roci_plan schema. Do not include prose outside the JSON object.");
                r
            } else {
                String::from_str("Return only JSON matching the roci_plan schema. Do not include prose outside the JSON object.")
            }
        },
        None => String::from_str("Return only JSON matching the roci_plan schema. Do not include prose outside the JSON object."),
    }
}

/// Index of the last assistant message, or -1.
pub open spec fn last_assistant(s: Seq<ChatMessageView>, k: int) -> int
    decreases k,
{
    if k <= 0 {
        -1
    } else if s[k - 1].role == Role::Assistant {
        k - 1
    } else {
        last_assistant(s, k - 1)
    }
}

/// The text of the last assistant message of a run, the one that must hold the plan.
pub fn last_assistant_text(messages: &Vec<ChatMessage>) -> (r: Option<String>)
    ensures
        match r {
            Some(t) => last_assistant(seq_view(messages@), messages.len() as int) >= 0 && t@ == seq_view(
                messages@,
            )[last_assistant(seq_view(messages@), messages.len() as int)].text,
            None => last_assistant(seq_view(messages@), messages.len() as int) == -1,
        },
{
    let ghost s = seq_view(messages@);
    let mut i: usize = messages.len();
    while i > 0
        invariant
            i <= messages.len(),
            s == seq_view(messages@),
            last_assistant(s, messages.len() as int) == last_assistant(s, i as int),
        decreases i,
    {
        if messages[i - 1].role == Role::Assistant {
            return Some(messages[i - 1].text());
        }
        i = i - 1;
    }
    None
}

} // verus!
