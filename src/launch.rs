//! The decisions of a launch: try each candidate in turn, stop at the first
//! that starts, and report every candidate tried when none does. The caller
//! spawns the processes and reports each outcome.

use vstd::prelude::*;
use crate::paths::texts;
use crate::project::EditorSource;
use crate::scan::opt_view;
use crate::text::occurs_at;

verus! {

/// How a failure message for `editor` begins, up to the list of candidates.
pub open spec fn failure_head(editor: EditorSource) -> Seq<char> {
    match editor {
        EditorSource::Vscode => "启动 VSCode 失败: 未找到 code 可执行文件。尝试过: "@,
        EditorSource::Trae => "启动 Trae 失败: 未找到 trae 可执行文件。尝试过: "@,
        EditorSource::Qoder => "启动 Qoder 失败: 未找到 qoder 可执行文件。尝试过: "@,
        EditorSource::Idea => "启动 IntelliJ IDEA 失败: 未找到 idea 可执行文件。尝试过: "@,
        EditorSource::Pycharm => "启动 PyCharm 失败: 未找到 pycharm 可执行文件。尝试过: "@,
        EditorSource::Webstorm => "启动 WebStorm 失败: 未找到 webstorm 可执行文件。尝试过: "@,
    }
}

fn failure_head_of(editor: EditorSource) -> (r: &'static str)
    ensures
        r@ == failure_head(editor),
{
    match editor {
        EditorSource::Vscode => "启动 VSCode 失败: 未找到 code 可执行文件。尝试过: ",
        EditorSource::Trae => "启动 Trae 失败: 未找到 trae 可执行文件。尝试过: ",
        EditorSource::Qoder => "启动 Qoder 失败: 未找到 qoder 可执行文件。尝试过: ",
        EditorSource::Idea => "启动 IntelliJ IDEA 失败: 未找到 idea 可执行文件。尝试过: ",
        EditorSource::Pycharm => "启动 PyCharm 失败: 未找到 pycharm 可执行文件。尝试过: ",
        EditorSource::Webstorm => "启动 WebStorm 失败: 未找到 webstorm 可执行文件。尝试过: ",
    }
}

/// The elements of `s` with `d` between each two.
pub open spec fn joined(s: Seq<Seq<char>>, d: Seq<char>) -> Seq<char>
    decreases s.len(),
{
    if s.len() == 0 {
        Seq::empty()
    } else if s.len() == 1 {
        s[0]
    } else {
        joined(s.drop_last(), d) + d + s.last()
    }
}

/// The message of a launch in which no candidate started.
pub open spec fn failure_text(editor: EditorSource, candidates: Seq<Seq<char>>, last_error: Option<Seq<char>>) -> Seq<char> {
    failure_head(editor) + joined(candidates, ", "@) + match last_error {
        Some(e) => "; 最后错误: "@ + e,
        None => Seq::empty(),
    }
}

/// The record of one failed start: the candidate, then the error.
pub open spec fn attempt_error(candidate: Seq<char>, error: Seq<char>) -> Seq<char> {
    candidate + " -> "@ + error
}

/// Where a launch stands.
pub struct LaunchPlan {
    pub editor: EditorSource,
    /// The executables to try, in order.
    pub candidates: Vec<String>,
    /// How many of them failed to start so far.
    pub tried: usize,
    /// The error of the last failed start.
    pub last_error: Option<String>,
}

impl LaunchPlan {
    pub open spec fn wf(&self) -> bool {
        self.tried <= self.candidates@.len()
    }

    /// A launch that has tried nothing yet.
    pub fn new(editor: EditorSource, candidates: Vec<String>) -> (r: LaunchPlan)
        ensures
            r.wf(),
            r.editor == editor,
            r.candidates == candidates,
            r.tried == 0,
            r.last_error is None,
    {
        LaunchPlan { editor, candidates, tried: 0, last_error: None }
    }

    /// The candidate to spawn next, or `None` when every one has failed.
    pub fn next_candidate(&self) -> (r: Option<String>)
        requires
            self.wf(),
        ensures
            opt_view(r) == if self.tried < self.candidates@.len() {
                Some(self.candidates@[self.tried as int]@)
            } else {
                None::<Seq<char>>
            },
    {
        if self.tried < self.candidates.len() {
            Some(self.candidates[self.tried].clone())
        } else {
            None
        }
    }

    /// Takes the outcome of spawning the candidate that `next_candidate`
    /// named. A start ends the launch with success. A failure is recorded;
    /// if it was the last candidate, the launch ends with the failure
    /// message, else it goes on (`None`).
    pub fn spawn_outcome(&mut self, outcome: Result<(), String>) -> (r: Option<Result<(), String>>)
        requires
            old(self).wf(),
            old(self).tried < old(self).candidates@.len(),
        ensures
            final(self).wf(),
            final(self).editor == old(self).editor,
            final(self).candidates == old(self).candidates,
            match outcome {
                Ok(()) => r == Some(Ok::<(), String>(())) && final(self).tried == old(self).tried
                    && final(self).last_error == old(self).last_error,
                Err(e) => {
                    &&& final(self).tried == old(self).tried + 1
                    &&& opt_view(final(self).last_error) == Some(
                        attempt_error(old(self).candidates@[old(self).tried as int]@, e@),
                    )
                    &&& if final(self).tried < final(self).candidates@.len() {
                        r is None
                    } else {
                        r matches Some(Err(m)) && m@ == failure_text(
                            final(self).editor,
                            texts(final(self).candidates@),
                            opt_view(final(self).last_error),
                        )
                    }
                },
            },
    {
        match outcome {
            Ok(()) => Some(Ok(())),
            Err(e) => {
                let n = self.candidates.len();
                let mut record = self.candidates[self.tried].clone();
                record.append(" -> ");
                record.append(e.as_str());
                self.last_error = Some(record);
                self.tried = self.tried + 1;
                if self.tried < self.candidates.len() {
                    None
                } else {
                    Some(Err(self.failure_message()))
                }
            },
        }
    }

    /// The message for a launch in which nothing started: the editor, every
    /// candidate, and the last error.
    pub fn failure_message(&self) -> (r: String)
        ensures
            r@ == failure_text(self.editor, texts(self.candidates@), opt_view(self.last_error)),
    {
        let mut m = String::from_str(failure_head_of(self.editor));
        let ghost all = texts(self.candidates@);
        let mut i: usize = 0;
        let ghost head = m@;
        assert(all.subrange(0, 0) =~= Seq::<Seq<char>>::empty());
        while i < self.candidates.len()
            invariant
                i <= self.candidates@.len(),
                all == texts(self.candidates@),
                m@ == head + joined(all.subrange(0, i as int), ", "@),
            decreases self.candidates@.len() - i,
        {
            let ghost pre = all.subrange(0, i as int);
            let ghost next = all.subrange(0, i + 1);
            assert(next.drop_last() =~= pre);
            assert(next.last() == self.candidates@[i as int]@);
            if i > 0 {
                m.append(", ");
            } else {
                assert(next =~= seq![next.last()]);
            }
            m.append(self.candidates[i].as_str());
            assert(m@ =~= head + joined(next, ", "@));
            i = i + 1;
        }
        assert(all.subrange(0, all.len() as int) =~= all);
        match &self.last_error {
            Some(e) => {
                m.append("; 最后错误: ");
                m.append(e.as_str());
            },
            None => {},
        }
        assert(m@ =~= failure_text(self.editor, all, opt_view(self.last_error)));
        m
    }
}

proof fn lemma_occurs_in_concat(a: Seq<char>, b: Seq<char>, p: Seq<char>, k: int)
    requires
        occurs_at(a, p, k),
    ensures
        occurs_at(a + b, p, k),
        occurs_at(b + a, p, b.len() + k),
{
    assert((a + b).subrange(k, k + p.len()) =~= a.subrange(k, k + p.len()));
    assert((b + a).subrange(b.len() + k, b.len() + k + p.len()) =~= a.subrange(k, k + p.len()));
}

proof fn lemma_joined_contains(s: Seq<Seq<char>>, d: Seq<char>, i: int)
    requires
        0 <= i < s.len(),
    ensures
        exists|k: int| occurs_at(joined(s, d), s[i], k),
    decreases s.len(),
{
    if s.len() == 1 {
        assert(joined(s, d).subrange(0, s[0].len() as int) =~= s[0]);
        assert(occurs_at(joined(s, d), s[i], 0));
    } else if i == s.len() - 1 {
        let front = joined(s.drop_last(), d) + d;
        assert(occurs_at(s.last(), s.last(), 0)) by {
            assert(s.last().subrange(0, s.last().len() as int) =~= s.last());
        }
        lemma_occurs_in_concat(s.last(), Seq::empty(), s.last(), 0);
        assert(s.last() + Seq::<char>::empty() =~= s.last());
        lemma_occurs_in_concat(s.last(), front, s.last(), 0);
        assert(occurs_at(joined(s, d), s[i], front.len() as int));
    } else {
        lemma_joined_contains(s.drop_last(), d, i);
        let k = choose|k: int| occurs_at(joined(s.drop_last(), d), s.drop_last()[i], k);
        lemma_occurs_in_concat(joined(s.drop_last(), d), d + s.last(), s[i], k);
        assert(joined(s.drop_last(), d) + (d + s.last()) =~= joined(s, d));
    }
}

/// Whether `text` contains `part`.
pub open spec fn mentions(text: Seq<char>, part: Seq<char>) -> bool {
    exists|k: int| occurs_at(text, part, k)
}

proof fn lemma_failure_names_candidate(
    editor: EditorSource,
    candidates: Seq<Seq<char>>,
    last_error: Option<Seq<char>>,
    i: int,
) -> (k: int)
    requires
        0 <= i < candidates.len(),
    ensures
        occurs_at(failure_text(editor, candidates, last_error), candidates[i], k),
{
    lemma_joined_contains(candidates, ", "@, i);
    let k = choose|k: int| occurs_at(joined(candidates, ", "@), candidates[i], k);
    let head = failure_head(editor);
    let tail = match last_error {
        Some(e) => "; 最后错误: "@ + e,
        None => Seq::<char>::empty(),
    };
    lemma_occurs_in_concat(joined(candidates, ", "@), tail, candidates[i], k);
    lemma_occurs_in_concat(joined(candidates, ", "@) + tail, head, candidates[i], k);
    assert(head + (joined(candidates, ", "@) + tail) =~= failure_text(editor, candidates, last_error));
    head.len() + k
}

/// When no candidate starts, the message names every candidate tried.
pub proof fn law_failure_names_every_candidate(
    editor: EditorSource,
    candidates: Seq<Seq<char>>,
    last_error: Option<Seq<char>>,
)
    ensures
        forall|i: int|
            0 <= i < candidates.len() ==> mentions(failure_text(editor, candidates, last_error), #[trigger] candidates[i]),
{
    assert forall|i: int| 0 <= i < candidates.len() implies mentions(
        failure_text(editor, candidates, last_error),
        #[trigger] candidates[i],
    ) by {
        let k = lemma_failure_names_candidate(editor, candidates, last_error, i);
    }
}

} // verus!
