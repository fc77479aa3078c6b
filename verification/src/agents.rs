//! The agent roles. Each role holds the typed fields its prompt is built
//! from, set builder-style before the call, and renders the prompt its
//! completion call sends. The call itself, and the fan-out of concurrent
//! referee calls, happen outside the library; the decision rule they feed
//! lives in `consensus`.

use vstd::prelude::*;
use vstd::string::StringExecFns;

verus! {

pub open spec fn opt_view(o: Option<String>) -> Option<Seq<char>> {
    match o {
        Some(t) => Some(t@),
        None => None,
    }
}

/// Explores for a new conjecture, or the final proof.
pub struct Explorer {
    pub model: String,
    pub problem: String,
    pub streaming: bool,
    pub context: Option<String>,
    pub reasoning_effort: String,
}

/// The explorer prompt: instructions, the problem statement, the response
/// format, and the collected context when there is any.
pub open spec fn explorer_prompt_spec(problem: Seq<char>, context: Option<Seq<char>>) -> Seq<
    char,
> {
    "### Instruction\n\nYou are an expert that is knowledgeable across all domains in math. This time you are asked to help with our frontier math research. Its statement is as follows:\n\n"@
        + "\\begin{problem}"@ + problem + "\\end{problem}"@
        + "\nThis problem could be difficult and not able to be directly solved, but you can make your contribution with the following instructions:\n\n1. You are required to explore different approaches or directions that might help with our final goal, and write down one interesting finding in your explorations as a new conjecture in your response. DO NOT claim that you can not do this job.\n2. Your conjecture must contain the complete definitions required within it, such that it is able to stand alone as an independent lemma, unless it is declared in memory. It should be a novel conjecture that marks concrete achievements and is not similar to any existing lemmas.\n3. You should wrap your finding inside a latex environment: \\begin{conjecture}\\end{conjecture}. This conjecture should be equipped with a detailed, complete and rigorous proof. You should explicitly write down every intermediate derivation step in the proof. The corresponding proof should be wrapped in \\begin{proof}\\end{proof} directly followed by the conjecture.\n4. After these components you should also provide the dependency of this conjecture. You need to write down the memory IDs of lemmas used in this conjecture in a JSON array format, and warp them inside \\begin{dependency}\\end{dependency}. For example, a dependency of a new conjecture could be \\begin{dependency}[0, 3, 4]\\end{dependency}. You can use an empty array \"[]\" when this conjecture does not depend on other lemmas.\n\nMore accurately, your response should obey the following format:\n\n\\begin{conjecture}Your new findings here\\end{conjecture}\n\\begin{proof}Your proof of the conjecture above\\end{proof}\n\\begin{dependency}An json array of related memory IDs of this conjecture\\end{dependency}\nMoreover, when you think the time is right that you are able to prove the original problem, you can simply state your proof inside \\begin{final_proof}\\end{final_proof}, and explicitly write down its dependency in \\begin{dependency}\\end{dependency}. In this case, you do not need to propose any new conjectures for this problem."@
        + (match context {
        Some(c) =>
        "\n\nHere is a list of context that we have collected for this problem or our history findings during exploration. They can be accepted without controversy as correct, and you can begin your exploration based on them.\n\n### Context and History Explorations\n\n"@
            + c,
        None => Seq::<char>::empty(),
    })
}

impl Explorer {
    pub fn new() -> (r: Self)
        ensures
            r.model@ == Seq::<char>::empty(),
            r.problem@ == Seq::<char>::empty(),
            !r.streaming,
            r.context is None,
            r.reasoning_effort@ == "medium"@,
    {
        Explorer {
            model: String::new(),
            problem: String::new(),
            streaming: false,
            context: None,
            reasoning_effort: "medium".to_owned(),
        }
    }

    pub fn model(self, model: &str) -> (r: Self)
        ensures
            r == (Explorer { model: r.model, ..self }),
            r.model@ == model@,
    {
        Explorer { model: model.to_owned(), ..self }
    }

    pub fn streaming(self, streaming: bool) -> (r: Self)
        ensures
            r == (Explorer { streaming, ..self }),
    {
        Explorer { streaming, ..self }
    }

    pub fn set_problem(&mut self, problem: &str)
        ensures
            *final(self) == (Explorer { problem: final(self).problem, ..*old(self) }),
            final(self).problem@ == problem@,
    {
        self.problem = problem.to_owned();
    }

    pub fn set_context(&mut self, context: &str)
        ensures
            *final(self) == (Explorer { context: final(self).context, ..*old(self) }),
            opt_view(final(self).context) == Some(context@),
    {
        self.context = Some(context.to_owned());
    }

    pub fn reasoning_effort(self, effort: &str) -> (r: Self)
        ensures
            r == (Explorer { reasoning_effort: r.reasoning_effort, ..self }),
            r.reasoning_effort@ == effort@,
    {
        Explorer { reasoning_effort: effort.to_owned(), ..self }
    }

    /// The prompt this explorer's completion call sends.
    pub fn prompt(&self) -> (r: String)
        ensures
            r@ == explorer_prompt_spec(self.problem@, opt_view(self.context)),
    {
        let mut out = String::new();
        out.append(
            "### Instruction\n\nYou are an expert that is knowledgeable across all domains in math. This time you are asked to help with our frontier math research. Its statement is as follows:\n\n",
        );
        out.append("\\begin{problem}");
        out.append(self.problem.as_str());
        out.append("\\end{problem}");
        out.append(
            "\nThis problem could be difficult and not able to be directly solved, but you can make your contribution with the following instructions:\n\n1. You are required to explore different approaches or directions that might help with our final goal, and write down one interesting finding in your explorations as a new conjecture in your response. DO NOT claim that you can not do this job.\n2. Your conjecture must contain the complete definitions required within it, such that it is able to stand alone as an independent lemma, unless it is declared in memory. It should be a novel conjecture that marks concrete achievements and is not similar to any existing lemmas.\n3. You should wrap your finding inside a latex environment: \\begin{conjecture}\\end{conjecture}. This conjecture should be equipped with a detailed, complete and rigorous proof. You should explicitly write down every intermediate derivation step in the proof. The corresponding proof should be wrapped in \\begin{proof}\\end{proof} directly followed by the conjecture.\n4. After these components you should also provide the dependency of this conjecture. You need to write down the memory IDs of lemmas used in this conjecture in a JSON array format, and warp them inside \\begin{dependency}\\end{dependency}. For example, a dependency of a new conjecture could be \\begin{dependency}[0, 3, 4]\\end{dependency}. You can use an empty array \"[]\" when this conjecture does not depend on other lemmas.\n\nMore accurately, your response should obey the following format:\n\n\\begin{conjecture}Your new findings here\\end{conjecture}\n\\begin{proof}Your proof of the conjecture above\\end{proof}\n\\begin{dependency}An json array of related memory IDs of this conjecture\\end{dependency}\nMoreover, when you think the time is right that you are able to prove the original problem, you can simply state your proof inside \\begin{final_proof}\\end{final_proof}, and explicitly write down its dependency in \\begin{dependency}\\end{dependency}. In this case, you do not need to propose any new conjectures for this problem.",
        );
        match &self.context {
            Some(c) => {
                out.append(
                    "\n\nHere is a list of context that we have collected for this problem or our history findings during exploration. They can be accepted without controversy as correct, and you can begin your exploration based on them.\n\n### Context and History Explorations\n\n",
                );
                out.append(c.as_str());
            },
            None => {},
        }
        proof {
            assert(out@ =~= explorer_prompt_spec(self.problem@, opt_view(self.context)));
        }
        out
    }
}

/// Reviews one (conjecture, proof) pair for flaws.
#[derive(Clone)]
pub struct Reviewer {
    pub model: String,
    pub conjecture: String,
    pub proof_text: String,
    pub reviews: u8,
    pub streaming: bool,
    pub context: Option<String>,
    pub reasoning_effort: String,
}

/// The referee prompt: verification instructions, the pair under verdict,
/// and the collected context when there is any.
pub open spec fn reviewer_prompt_spec(
    conjecture: Seq<char>,
    proof_text: Seq<char>,
    context: Option<Seq<char>>,
) -> Seq<char> {
    "### Instruction\n\nYou are an expert that is knowledgeable across all domains in math. Here you will be given a conjecture and a corresponding proof in math. You need to act as a referee of this proof, carefully examine and verify this proof.\n\nA valid proof must satisfy the following three conditions:\n\n1. **Correct**. There is no logical errors or calculation errors in the proof, and every theorems applied in the proof must accurately satisfy the required conditions.\n2. **Complete**. The proof should contain every detailed intermediate steps in derivations or calculations.\n3. **Rigorous**. Every statement in the proof must either come from detailed proofsteps or preliminaries or lemmas.\n\nPlease state your verification result inside $\\boxed{}$ as $\\boxed{valid}$ or $\\boxed{invalid}$. You also need to include the rationale on your decision in your response.\n\n"@
        + "### Conjecture\n\n"@ + conjecture + "\n\n### Proof\n\n"@ + proof_text + (match context {
        Some(c) =>
        "\n\n### Context and History Explorations\n\nHere is a list of context that we have collected for this problem or our history findings during exploration. They serve as the background of the conjecture and proof and can be accepted without controversy as correct.\n\n"@
            + c,
        None => Seq::<char>::empty(),
    })
}

impl Reviewer {
    pub fn new() -> (r: Self)
        ensures
            r.model@ == Seq::<char>::empty(),
            r.conjecture@ == Seq::<char>::empty(),
            r.proof_text@ == Seq::<char>::empty(),
            r.reviews == 0,
            !r.streaming,
            r.context is None,
            r.reasoning_effort@ == "medium"@,
    {
        Reviewer {
            model: String::new(),
            conjecture: String::new(),
            proof_text: String::new(),
            reviews: 0,
            streaming: false,
            context: None,
            reasoning_effort: "medium".to_owned(),
        }
    }

    pub fn model(self, model: &str) -> (r: Self)
        ensures
            r == (Reviewer { model: r.model, ..self }),
            r.model@ == model@,
    {
        Reviewer { model: model.to_owned(), ..self }
    }

    pub fn reviews(self, reviews: u8) -> (r: Self)
        ensures
            r == (Reviewer { reviews, ..self }),
    {
        Reviewer { reviews, ..self }
    }

    pub fn streaming(self, streaming: bool) -> (r: Self)
        ensures
            r == (Reviewer { streaming, ..self }),
    {
        Reviewer { streaming, ..self }
    }

    pub fn set_conjecture(&mut self, conjecture: &str)
        ensures
            *final(self) == (Reviewer { conjecture: final(self).conjecture, ..*old(self) }),
            final(self).conjecture@ == conjecture@,
    {
        self.conjecture = conjecture.to_owned();
    }

    pub fn set_proof(&mut self, proof_text: &str)
        ensures
            *final(self) == (Reviewer { proof_text: final(self).proof_text, ..*old(self) }),
            final(self).proof_text@ == proof_text@,
    {
        self.proof_text = proof_text.to_owned();
    }

    pub fn set_context(&mut self, context: &str)
        ensures
            *final(self) == (Reviewer { context: final(self).context, ..*old(self) }),
            opt_view(final(self).context) == Some(context@),
    {
        self.context = Some(context.to_owned());
    }

    pub fn reasoning_effort(self, effort: &str) -> (r: Self)
        ensures
            r == (Reviewer { reasoning_effort: r.reasoning_effort, ..self }),
            r.reasoning_effort@ == effort@,
    {
        Reviewer { reasoning_effort: effort.to_owned(), ..self }
    }

    /// The prompt each of this referee's completion calls sends.
    pub fn prompt(&self) -> (r: String)
        ensures
            r@ == reviewer_prompt_spec(self.conjecture@, self.proof_text@, opt_view(self.context)),
    {
        let mut out = String::new();
        out.append(
            "### Instruction\n\nYou are an expert that is knowledgeable across all domains in math. Here you will be given a conjecture and a corresponding proof in math. You need to act as a referee of this proof, carefully examine and verify this proof.\n\nA valid proof must satisfy the following three conditions:\n\n1. **Correct**. There is no logical errors or calculation errors in the proof, and every theorems applied in the proof must accurately satisfy the required conditions.\n2. **Complete**. The proof should contain every detailed intermediate steps in derivations or calculations.\n3. **Rigorous**. Every statement in the proof must either come from detailed proofsteps or preliminaries or lemmas.\n\nPlease state your verification result inside $\\boxed{}$ as $\\boxed{valid}$ or $\\boxed{invalid}$. You also need to include the rationale on your decision in your response.\n\n",
        );
        out.append("### Conjecture\n\n");
        out.append(self.conjecture.as_str());
        out.append("\n\n### Proof\n\n");
        out.append(self.proof_text.as_str());
        match &self.context {
            Some(c) => {
                out.append(
                    "\n\n### Context and History Explorations\n\nHere is a list of context that we have collected for this problem or our history findings during exploration. They serve as the background of the conjecture and proof and can be accepted without controversy as correct.\n\n",
                );
                out.append(c.as_str());
            },
            None => {},
        }
        proof {
            assert(out@ =~= reviewer_prompt_spec(
                self.conjecture@,
                self.proof_text@,
                opt_view(self.context),
            ));
        }
        out
    }
}

/// Repairs a flawed proof, or refutes its conjecture.
pub struct Refiner {
    pub model: String,
    pub conjecture: String,
    pub proof_text: String,
    pub review: String,
    pub streaming: bool,
    pub context: Option<String>,
    pub reasoning_effort: String,
}

/// The refiner prompt: repair instructions, the flawed pair with its
/// verdict, and the collected context when there is any.
pub open spec fn refiner_prompt_spec(
    conjecture: Seq<char>,
    proof_text: Seq<char>,
    review: Seq<char>,
    context: Option<Seq<char>>,
) -> Seq<char> {
    "### Instruction\n\nYou are an expert that is knowledgeable across all domains in math. This time you are asked to help with frontier math research. We have proposed a new conjecture, and tried to prove it. However, one referee have found some flaws in our proof. You need to help us with our research project by:\n\n1. Please try to refine or even completely rewrite the proof so that it can be **correct**, **complete** and **rigorous**. You should wrap your new proof inside latex environment as \\begin{proof}\\end{proof} in your response. Once you have done this refinement, you should write down a \"\\boxed{true}\" at the end of your response.\n2. And if you believe this conjecture itself is not true, please state the opposite of this conjecture inside \\begin{conjecture}\\end{conjecture}, and your rationales or proofs of this judgement inside \\begin{proof}\\end{proof}. Finally you should write down a \"\\boxed{false}\" at the end of your response.\n\n"@
        + "### Conjecture\n\n"@ + conjecture + "\n\n### Proof\n\n"@ + proof_text
        + "\n\n### Review\n\n"@ + review + (match context {
        Some(c) =>
        "\n\n### Context and History Explorations\n\nHere is a list of context that we have collected for this problem or our history findings during exploration. They serve as the background of the conjecture and proof, and can be accepted without controversy as correct.\n\n"@
            + c,
        None => Seq::<char>::empty(),
    })
}

impl Refiner {
    pub fn new() -> (r: Self)
        ensures
            r.model@ == Seq::<char>::empty(),
            r.conjecture@ == Seq::<char>::empty(),
            r.proof_text@ == Seq::<char>::empty(),
            r.review@ == Seq::<char>::empty(),
            !r.streaming,
            r.context is None,
            r.reasoning_effort@ == "medium"@,
    {
        Refiner {
            model: String::new(),
            conjecture: String::new(),
            proof_text: String::new(),
            review: String::new(),
            streaming: false,
            context: None,
            reasoning_effort: "medium".to_owned(),
        }
    }

    pub fn model(self, model: &str) -> (r: Self)
        ensures
            r == (Refiner { model: r.model, ..self }),
            r.model@ == model@,
    {
        Refiner { model: model.to_owned(), ..self }
    }

    pub fn streaming(self, streaming: bool) -> (r: Self)
        ensures
            r == (Refiner { streaming, ..self }),
    {
        Refiner { streaming, ..self }
    }

    pub fn set_conjecture(&mut self, conjecture: &str)
        ensures
            *final(self) == (Refiner { conjecture: final(self).conjecture, ..*old(self) }),
            final(self).conjecture@ == conjecture@,
    {
        self.conjecture = conjecture.to_owned();
    }

    pub fn set_proof(&mut self, proof_text: &str)
        ensures
            *final(self) == (Refiner { proof_text: final(self).proof_text, ..*old(self) }),
            final(self).proof_text@ == proof_text@,
    {
        self.proof_text = proof_text.to_owned();
    }

    pub fn set_review(&mut self, review: &str)
        ensures
            *final(self) == (Refiner { review: final(self).review, ..*old(self) }),
            final(self).review@ == review@,
    {
        self.review = review.to_owned();
    }

    pub fn set_context(&mut self, context: &str)
        ensures
            *final(self) == (Refiner { context: final(self).context, ..*old(self) }),
            opt_view(final(self).context) == Some(context@),
    {
        self.context = Some(context.to_owned());
    }

    pub fn reasoning_effort(self, effort: &str) -> (r: Self)
        ensures
            r == (Refiner { reasoning_effort: r.reasoning_effort, ..self }),
            r.reasoning_effort@ == effort@,
    {
        Refiner { reasoning_effort: effort.to_owned(), ..self }
    }

    /// The prompt this refiner's completion call sends.
    pub fn prompt(&self) -> (r: String)
        ensures
            r@ == refiner_prompt_spec(
                self.conjecture@,
                self.proof_text@,
                self.review@,
                opt_view(self.context),
            ),
    {
        let mut out = String::new();
        out.append(
            "### Instruction\n\nYou are an expert that is knowledgeable across all domains in math. This time you are asked to help with frontier math research. We have proposed a new conjecture, and tried to prove it. However, one referee have found some flaws in our proof. You need to help us with our research project by:\n\n1. Please try to refine or even completely rewrite the proof so that it can be **correct**, **complete** and **rigorous**. You should wrap your new proof inside latex environment as \\begin{proof}\\end{proof} in your response. Once you have done this refinement, you should write down a \"\\boxed{true}\" at the end of your response.\n2. And if you believe this conjecture itself is not true, please state the opposite of this conjecture inside \\begin{conjecture}\\end{conjecture}, and your rationales or proofs of this judgement inside \\begin{proof}\\end{proof}. Finally you should write down a \"\\boxed{false}\" at the end of your response.\n\n",
        );
        out.append("### Conjecture\n\n");
        out.append(self.conjecture.as_str());
        out.append("\n\n### Proof\n\n");
        out.append(self.proof_text.as_str());
        out.append("\n\n### Review\n\n");
        out.append(self.review.as_str());
        match &self.context {
            Some(c) => {
                out.append(
                    "\n\n### Context and History Explorations\n\nHere is a list of context that we have collected for this problem or our history findings during exploration. They serve as the background of the conjecture and proof, and can be accepted without controversy as correct.\n\n",
                );
                out.append(c.as_str());
            },
            None => {},
        }
        proof {
            assert(out@ =~= refiner_prompt_spec(
                self.conjecture@,
                self.proof_text@,
                self.review@,
                opt_view(self.context),
            ));
        }
        out
    }
}

/// Rewrites one text into clean markdown.
pub struct Formatter {
    pub model: String,
    pub content: String,
    pub reasoning_effort: String,
}

/// The formatter prompt: rewriting instructions and the source contents.
pub open spec fn formatter_prompt_spec(content: Seq<char>) -> Seq<char> {
    "Please help me rewrite these math related contents into standard markdown format for display. The rewriting must respect these rules:\n\n1. Keep the intended meaning of these contents unchanged.\n2. You should not use headings in the rewritten contents.\n3. Each math formula should be wrapped in dollars like $ $ for inline formula and $$ $$ for multiline one.\n4. You should wrap the rewritten contents inside latex environment as \\begin{contents}rewritten contents here\\end{contents}\n\nHere is the source contents:\n\n"@
        + "\\begin{contents}"@ + content + "\\end{contents}"@
}

impl Formatter {
    pub fn new() -> (r: Self)
        ensures
            r.model@ == Seq::<char>::empty(),
            r.content@ == Seq::<char>::empty(),
            r.reasoning_effort@ == "medium"@,
    {
        Formatter {
            model: String::new(),
            content: String::new(),
            reasoning_effort: "medium".to_owned(),
        }
    }

    pub fn model(self, model: &str) -> (r: Self)
        ensures
            r == (Formatter { model: r.model, ..self }),
            r.model@ == model@,
    {
        Formatter { model: model.to_owned(), ..self }
    }

    pub fn content(self, content: &str) -> (r: Self)
        ensures
            r == (Formatter { content: r.content, ..self }),
            r.content@ == content@,
    {
        Formatter { content: content.to_owned(), ..self }
    }

    pub fn reasoning_effort(self, effort: &str) -> (r: Self)
        ensures
            r == (Formatter { reasoning_effort: r.reasoning_effort, ..self }),
            r.reasoning_effort@ == effort@,
    {
        Formatter { reasoning_effort: effort.to_owned(), ..self }
    }

    /// The prompt this formatter's completion call sends.
    pub fn prompt(&self) -> (r: String)
        ensures
            r@ == formatter_prompt_spec(self.content@),
    {
        let mut out = String::new();
        out.append(
            "Please help me rewrite these math related contents into standard markdown format for display. The rewriting must respect these rules:\n\n1. Keep the intended meaning of these contents unchanged.\n2. You should not use headings in the rewritten contents.\n3. Each math formula should be wrapped in dollars like $ $ for inline formula and $$ $$ for multiline one.\n4. You should wrap the rewritten contents inside latex environment as \\begin{contents}rewritten contents here\\end{contents}\n\nHere is the source contents:\n\n",
        );
        out.append("\\begin{contents}");
        out.append(self.content.as_str());
        out.append("\\end{contents}");
        proof {
            assert(out@ =~= formatter_prompt_spec(self.content@));
        }
        out
    }
}

/// Condenses one proof into a short sketch.
pub struct ProofSummarizer {
    pub model: String,
    pub conjecture: String,
    pub proof_text: String,
    pub reasoning_effort: String,
}

/// The summarizer prompt: condensing instructions and the pair to condense.
pub open spec fn summarizer_prompt_spec(conjecture: Seq<char>, proof_text: Seq<char>) -> Seq<
    char,
> {
    "You will be given a mathematical conjecture and its proof.\nYour task is to carefully read and understand the proof, then produce a clear and concise summary that includes:\n1. **Overall Overview** - a brief description of the main idea and approach of the proof.\n2. **Key Steps** - the essential logical steps in the proof, listed or described in order.\n3. **Main Ideas / Techniques** - important mathematical concepts, techniques, or strategies applied in the proof.\n\nDo not rewrite the full proof or include excessive details.\nFocus on extracting and condensing the essence of the proof's reasoning.\nPresent the final result strictly inside the following tags:\n```\n\\begin{summary}\n[Your concise summary here]\n\\end{summary}\n```\nEnsure that the summary is self-contained and understandable without referencing the original text.\n\n"@
        + "\\begin{conjecture}"@ + conjecture + "\\end{conjecture}\n\\begin{proof}"@ + proof_text
        + "\\end{proof}"@
}

impl ProofSummarizer {
    pub fn new() -> (r: Self)
        ensures
            r.model@ == Seq::<char>::empty(),
            r.conjecture@ == Seq::<char>::empty(),
            r.proof_text@ == Seq::<char>::empty(),
            r.reasoning_effort@ == "medium"@,
    {
        ProofSummarizer {
            model: String::new(),
            conjecture: String::new(),
            proof_text: String::new(),
            reasoning_effort: "medium".to_owned(),
        }
    }

    pub fn model(self, model: &str) -> (r: Self)
        ensures
            r == (ProofSummarizer { model: r.model, ..self }),
            r.model@ == model@,
    {
        ProofSummarizer { model: model.to_owned(), ..self }
    }

    pub fn conjecture(self, conjecture: &str) -> (r: Self)
        ensures
            r == (ProofSummarizer { conjecture: r.conjecture, ..self }),
            r.conjecture@ == conjecture@,
    {
        ProofSummarizer { conjecture: conjecture.to_owned(), ..self }
    }

    pub fn proof_text(self, proof_text: &str) -> (r: Self)
        ensures
            r == (ProofSummarizer { proof_text: r.proof_text, ..self }),
            r.proof_text@ == proof_text@,
    {
        ProofSummarizer { proof_text: proof_text.to_owned(), ..self }
    }

    pub fn reasoning_effort(self, effort: &str) -> (r: Self)
        ensures
            r == (ProofSummarizer { reasoning_effort: r.reasoning_effort, ..self }),
            r.reasoning_effort@ == effort@,
    {
        ProofSummarizer { reasoning_effort: effort.to_owned(), ..self }
    }

    /// The prompt this summarizer's completion call sends.
    pub fn prompt(&self) -> (r: String)
        ensures
            r@ == summarizer_prompt_spec(self.conjecture@, self.proof_text@),
    {
        let mut out = String::new();
        out.append(
            "You will be given a mathematical conjecture and its proof.\nYour task is to carefully read and understand the proof, then produce a clear and concise summary that includes:\n1. **Overall Overview** - a brief description of the main idea and approach of the proof.\n2. **Key Steps** - the essential logical steps in the proof, listed or described in order.\n3. **Main Ideas / Techniques** - important mathematical concepts, techniques, or strategies applied in the proof.\n\nDo not rewrite the full proof or include excessive details.\nFocus on extracting and condensing the essence of the proof's reasoning.\nPresent the final result strictly inside the following tags:\n```\n\\begin{summary}\n[Your concise summary here]\n\\end{summary}\n```\nEnsure that the summary is self-contained and understandable without referencing the original text.\n\n",
        );
        out.append("\\begin{conjecture}");
        out.append(self.conjecture.as_str());
        out.append("\\end{conjecture}\n\\begin{proof}");
        out.append(self.proof_text.as_str());
        out.append("\\end{proof}");
        proof {
            assert(out@ =~= summarizer_prompt_spec(self.conjecture@, self.proof_text@));
        }
        out
    }
}

} // verus!
