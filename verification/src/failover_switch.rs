//! Making the provider that answered the current one: at most one switch per app at a time, and
//! none on account of a state that is no longer there.

use vstd::prelude::*;
use vstd::string::*;
use crate::error::{AppError, AppErrorView};
use crate::text::{
    join, join_all, joined, list_has, opt_view, same_text, texts_view, trim, trimmed,
};

verus! {

/// The switches that are under way.
#[derive(Debug)]
pub struct FailoverSwitchManager {
    pending_switches: Vec<String>,
}

impl View for FailoverSwitchManager {
    type V = Set<Seq<char>>;

    /// The apps that a switch is under way for.
    closed spec fn view(&self) -> Set<Seq<char>> {
        texts_view(self.pending_switches@).to_set()
    }
}

impl FailoverSwitchManager {
    /// No switch is under way.
    pub fn new() -> (manager: FailoverSwitchManager)
        ensures
            manager@ == Set::<Seq<char>>::empty(),
    {
        let manager = FailoverSwitchManager { pending_switches: Vec::new() };
        assert(manager@ =~= Set::<Seq<char>>::empty());
        manager
    }

    /// Begins a switch for an app, unless one is under way for it already.
    pub fn try_switch(&mut self, app_type: &str) -> (begun: bool)
        ensures
            begun == !old(self)@.contains(app_type@),
            final(self)@ == old(self)@.insert(app_type@),
    {
        let ghost before = texts_view(self.pending_switches@);
        if list_has(&self.pending_switches, app_type) {
            assert(self@ =~= self@.insert(app_type@));
            return false;
        }
        self.pending_switches.push(app_type.to_owned());
        proof {
            let after = texts_view(self.pending_switches@);
            assert(after =~= before.push(app_type@));
            assert forall|app: Seq<char>| #[trigger]
                after.to_set().contains(app) <==> before.to_set().insert(app_type@).contains(
                    app,
                ) by {
                if before.contains(app) {
                    let i = choose|i: int| 0 <= i < before.len() && before[i] == app;
                    assert(after[i] == app);
                }
                assert(after[before.len() as int] == app_type@);
            }
            assert(self@ =~= old(self)@.insert(app_type@));
        }
        true
    }

    /// Ends the switch of an app, however it went.
    pub fn finish_switch(&mut self, app_type: &str)
        ensures
            final(self)@ == old(self)@.remove(app_type@),
    {
        let ghost before = texts_view(self.pending_switches@);
        let mut kept: Vec<String> = Vec::new();
        let mut i: usize = 0;
        assert(texts_view(kept@) =~= Seq::<Seq<char>>::empty());
        while i < self.pending_switches.len()
            invariant
                i <= self.pending_switches@.len(),
                before == texts_view(self.pending_switches@),
                forall|app: Seq<char>| #[trigger]
                    texts_view(kept@).contains(app) <==> app != app_type@ && before.take(
                        i as int,
                    ).contains(app),
            decreases self.pending_switches@.len() - i,
        {
            let ghost earlier = texts_view(kept@);
            let ghost this = self.pending_switches@[i as int]@;
            let ghost seen = before.take(i as int);
            assert(before.take(i + 1) =~= seen.push(this));
            if !same_text(self.pending_switches[i].as_str(), app_type) {
                kept.push(self.pending_switches[i].clone());
                assert(texts_view(kept@) =~= earlier.push(this));
            }
            proof {
                let later = texts_view(kept@);
                assert forall|app: Seq<char>| #[trigger]
                    later.contains(app) <==> app != app_type@ && before.take(i + 1).contains(
                        app,
                    ) by {
                    pushed_contains(earlier, this, app);
                    pushed_contains(seen, this, app);
                    assert(earlier.contains(app) <==> app != app_type@ && seen.contains(app));
                }
            }
            i = i + 1;
        }
        assert(before.take(i as int) =~= before);
        self.pending_switches = kept;
        assert(self@ =~= old(self)@.remove(app_type@));
    }
}

proof fn pushed_contains(list: Seq<Seq<char>>, last: Seq<char>, text: Seq<char>)
    ensures
        list.push(last).contains(text) <==> list.contains(text) || last == text,
{
    let longer = list.push(last);
    if list.contains(text) {
        let i = choose|i: int| 0 <= i < list.len() && list[i] == text;
        assert(longer[i] == text);
    }
    assert(longer[list.len() as int] == last);
    if longer.contains(text) {
        let i = choose|i: int| 0 <= i < longer.len() && longer[i] == text;
        if i < list.len() {
            assert(list[i] == text);
        }
    }
}

/// Whether the current provider is the expected one; a blank expectation is that there is none.
pub open spec fn is_expected(current: Option<Seq<char>>, expected: Seq<char>) -> bool {
    current == if trimmed(expected).len() > 0 {
        Some(expected)
    } else {
        None
    }
}

/// Whether the current provider is the expected one.
pub fn current_provider_matches(current: &Option<String>, expected_provider_id: &str) -> (matches:
    bool)
    ensures
        matches == is_expected(opt_view(*current), expected_provider_id@),
{
    let blank = trim(expected_provider_id).is_empty();
    match current {
        Some(current) => !blank && same_text(current.as_str(), expected_provider_id),
        None => blank,
    }
}

/// What a switch does next.
#[derive(Debug)]
pub enum SwitchAction {
    /// Lock the app's providers and read the current one.
    Compare,
    /// Keep what is needed to undo the switch.
    Snapshot,
    /// Switch.
    Switch,
    /// Bring the agent roles in line with the new provider.
    Reconcile,
    /// Undo the switch.
    Restore,
    /// Show the switch in the tray where there is one, and announce it.
    Publish { tray: bool },
    /// The switch is over: it happened, it did not, or it failed.
    Finish(Result<bool, AppError>),
}

/// What a switch does next, as a mathematical value.
pub enum SwitchActionView {
    Compare,
    Snapshot,
    Switch,
    Reconcile,
    Restore,
    Publish { tray: bool },
    Finish(Result<bool, AppErrorView>),
}

impl View for SwitchAction {
    type V = SwitchActionView;

    open spec fn view(&self) -> SwitchActionView {
        match self {
            SwitchAction::Compare => SwitchActionView::Compare,
            SwitchAction::Snapshot => SwitchActionView::Snapshot,
            SwitchAction::Switch => SwitchActionView::Switch,
            SwitchAction::Reconcile => SwitchActionView::Reconcile,
            SwitchAction::Restore => SwitchActionView::Restore,
            SwitchAction::Publish { tray } => SwitchActionView::Publish { tray: *tray },
            SwitchAction::Finish(Ok(switched)) => SwitchActionView::Finish(Ok(*switched)),
            SwitchAction::Finish(Err(error)) => SwitchActionView::Finish(Err(error@)),
        }
    }
}

/// How a switch begins.
pub open spec fn begun(enabled: Option<bool>, has_app: bool, has_state: bool) -> SwitchActionView {
    if enabled != Some(true) || !has_app {
        SwitchActionView::Finish(Ok(false))
    } else if has_state {
        SwitchActionView::Compare
    } else {
        SwitchActionView::Publish { tray: false }
    }
}

/// How a switch begins: it does not where the proxy does not serve the app, or where that is not
/// known. Without the app's state there is only something to announce.
pub fn begin_switch(enabled: Option<bool>, has_app: bool, has_state: bool) -> (action: SwitchAction)
    ensures
        action@ == begun(enabled, has_app, has_state),
{
    let served = match enabled {
        Some(enabled) => enabled,
        None => false,
    };
    if !served || !has_app {
        SwitchAction::Finish(Ok(false))
    } else if has_state {
        SwitchAction::Compare
    } else {
        SwitchAction::Publish { tray: false }
    }
}

/// What follows from the current provider: a switch from another one than expected is stale and
/// dropped. That of Codex can be undone.
pub open spec fn compared(
    codex: bool,
    current: Result<Option<Seq<char>>, AppErrorView>,
    expected: Seq<char>,
) -> SwitchActionView {
    match current {
        Ok(current) => if !is_expected(current, expected) {
            SwitchActionView::Finish(Ok(false))
        } else if codex {
            SwitchActionView::Snapshot
        } else {
            SwitchActionView::Switch
        },
        Err(error) => SwitchActionView::Finish(Err(error)),
    }
}

/// What follows from the current provider.
pub fn after_compare(
    codex: bool,
    current: Result<Option<String>, AppError>,
    expected_provider_id: &str,
) -> (action: SwitchAction)
    ensures
        action@ == compared(
            codex,
            match current {
                Ok(current) => Ok(opt_view(current)),
                Err(error) => Err(error@),
            },
            expected_provider_id@,
        ),
{
    match current {
        Ok(current) => if !current_provider_matches(&current, expected_provider_id) {
            SwitchAction::Finish(Ok(false))
        } else if codex {
            SwitchAction::Snapshot
        } else {
            SwitchAction::Switch
        },
        Err(error) => SwitchAction::Finish(Err(error)),
    }
}

/// What follows from keeping what is needed to undo the switch: without it there is none.
pub fn after_snapshot(kept: Result<(), AppError>) -> (action: SwitchAction)
    ensures
        action@ == match kept {
            Ok(()) => SwitchActionView::Switch,
            Err(error) => SwitchActionView::Finish(Err(error@)),
        },
{
    match kept {
        Ok(()) => SwitchAction::Switch,
        Err(error) => SwitchAction::Finish(Err(error)),
    }
}

/// What follows from the switch itself: nothing where it changed nothing.
pub open spec fn switched(codex: bool, changed: Result<bool, Seq<char>>) -> SwitchActionView {
    match changed {
        Ok(true) => if codex {
            SwitchActionView::Reconcile
        } else {
            SwitchActionView::Publish { tray: true }
        },
        Ok(false) => SwitchActionView::Finish(Ok(false)),
        Err(error) => SwitchActionView::Finish(Err(AppErrorView::Message(error))),
    }
}

/// What follows from the switch itself.
pub fn after_switch(codex: bool, changed: Result<bool, String>) -> (action: SwitchAction)
    ensures
        action@ == switched(
            codex,
            match changed {
                Ok(changed) => Ok(changed),
                Err(error) => Err(error@),
            },
        ),
{
    match changed {
        Ok(true) => if codex {
            SwitchAction::Reconcile
        } else {
            SwitchAction::Publish { tray: true }
        },
        Ok(false) => SwitchAction::Finish(Ok(false)),
        Err(error) => SwitchAction::Finish(Err(AppError::Message(error))),
    }
}

/// What follows from the agent roles: where they cannot be brought in line, the switch is undone.
pub fn after_reconcile(in_line: bool) -> (action: SwitchAction)
    ensures
        action@ == if in_line {
            SwitchActionView::Publish { tray: true }
        } else {
            SwitchActionView::Restore
        },
{
    if in_line {
        SwitchAction::Publish { tray: true }
    } else {
        SwitchAction::Restore
    }
}

/// The error of a switch that was undone: why it was, and what went wrong in undoing it.
pub open spec fn undone_error(error: Seq<char>, rollback_errors: Seq<Seq<char>>) -> AppErrorView {
    let suffix = if rollback_errors.len() == 0 {
        Seq::empty()
    } else {
        "; 回滚错误: "@ + joined(rollback_errors, "; "@)
    };
    AppErrorView::Message("同步 Codex Agent Role 失败: "@ + error + suffix)
}

/// What goes wrong in undoing a switch: what the proxy's state reports, then the current
/// provider in the database and on the device, then the agent roles.
pub open spec fn rollback_texts(
    state_errors: Seq<Seq<char>>,
    database: Option<Seq<char>>,
    device: Option<Seq<char>>,
    roles: Option<Seq<char>>,
) -> Seq<Seq<char>> {
    let one = |head: Seq<char>, error: Option<Seq<char>>| match error {
        Some(error) => seq![head + error],
        None => Seq::<Seq<char>>::empty(),
    };
    state_errors + one("恢复数据库当前 Provider 失败: "@, database) + one(
        "恢复设备当前 Provider 失败: "@,
        device,
    ) + one("恢复 Codex Agent Role 失败: "@, roles)
}

fn push_error(errors: &mut Vec<String>, head: &str, error: &Option<String>)
    ensures
        texts_view(final(errors)@) == texts_view(old(errors)@) + match opt_view(*error) {
            Some(error) => seq![head@ + error],
            None => Seq::<Seq<char>>::empty(),
        },
{
    let ghost before = texts_view(errors@);
    match error {
        Some(error) => {
            errors.push(join(head, error.as_str()));
            assert(texts_view(errors@) =~= before + seq![head@ + error@]);
        },
        None => {
            assert(before =~= before + Seq::<Seq<char>>::empty());
        },
    }
}

/// What goes wrong in restoring the two pointers to the current provider.
pub fn restore_errors(database: &Option<String>, device: &Option<String>) -> (errors: Vec<String>)
    ensures
        texts_view(errors@) == rollback_texts(
            Seq::empty(),
            opt_view(*database),
            opt_view(*device),
            None,
        ),
{
    let mut errors: Vec<String> = Vec::new();
    assert(texts_view(errors@) =~= Seq::<Seq<char>>::empty());
    push_error(&mut errors, "恢复数据库当前 Provider 失败: ", database);
    push_error(&mut errors, "恢复设备当前 Provider 失败: ", device);
    assert(texts_view(errors@) =~= texts_view(errors@) + Seq::<Seq<char>>::empty());
    errors
}

/// The pointer that the database gets back: empty where there was none.
pub fn database_pointer(previous: &Option<String>) -> (id: String)
    ensures
        id@ == match opt_view(*previous) {
            Some(id) => id,
            None => Seq::empty(),
        },
{
    match previous {
        Some(id) => id.clone(),
        None => String::new(),
    }
}

/// The end of a switch that was undone. `state_errors` and `pointer_errors` say what went wrong
/// in undoing it, `roles` why the agent roles could not be brought back.
pub fn after_restore(
    error: &str,
    state_errors: Vec<String>,
    pointer_errors: Vec<String>,
    roles: &Option<String>,
) -> (action: SwitchAction)
    ensures
        action@ == SwitchActionView::Finish(
            Err(
                undone_error(
                    error@,
                    rollback_texts(
                        texts_view(state_errors@) + texts_view(pointer_errors@),
                        None,
                        None,
                        opt_view(*roles),
                    ),
                ),
            ),
        ),
{
    let ghost state = texts_view(state_errors@);
    let ghost pointers = texts_view(pointer_errors@);
    let mut errors = state_errors;
    let mut i: usize = 0;
    assert(state =~= state + pointers.take(0));
    while i < pointer_errors.len()
        invariant
            i <= pointer_errors@.len(),
            pointers == texts_view(pointer_errors@),
            texts_view(errors@) == state + pointers.take(i as int),
        decreases pointer_errors@.len() - i,
    {
        let ghost before = texts_view(errors@);
        let text = pointer_errors[i].clone();
        errors.push(text);
        assert(texts_view(errors@) =~= before.push(pointers[i as int]));
        assert(state + pointers.take(i + 1) =~= (state + pointers.take(i as int)).push(
            pointers[i as int],
        ));
        i = i + 1;
    }
    assert(pointers.take(i as int) =~= pointers);
    push_error(&mut errors, "恢复 Codex Agent Role 失败: ", roles);
    proof {
        let expected = rollback_texts(state + pointers, None, None, opt_view(*roles));
        assert(texts_view(errors@) =~= expected);
    }
    let mut text = join("同步 Codex Agent Role 失败: ", error);
    if errors.len() > 0 {
        text.append("; 回滚错误: ");
        text.append(join_all(&errors, "; ").as_str());
        assert(text@ =~= "同步 Codex Agent Role 失败: "@ + error@ + ("; 回滚错误: "@ + joined(
            texts_view(errors@),
            "; "@,
        )));
    } else {
        assert(text@ =~= "同步 Codex Agent Role 失败: "@ + error@ + Seq::empty());
    }
    SwitchAction::Finish(Err(AppError::Message(text)))
}

/// A switch that was decided on while another provider was current never happens.
pub proof fn stale_switches_are_dropped(
    codex: bool,
    current: Option<Seq<char>>,
    expected: Seq<char>,
)
    requires
        !is_expected(current, expected),
    ensures
        compared(codex, Ok(current), expected) == SwitchActionView::Finish(Ok(false)),
{
}

/// An app's second switch does not begin before its first one has ended.
pub proof fn one_switch_at_a_time(under_way: Set<Seq<char>>, app: Seq<char>, other: Seq<char>)
    ensures
        under_way.insert(app).contains(app),
        !under_way.insert(app).remove(app).contains(app),
        other != app ==> under_way.insert(app).contains(other) == under_way.contains(other),
{
}

/// A switch begins where the proxy serves the app; without the app's state it is only announced,
/// and without the app, or where that is not known, it does not happen.
pub proof fn switches_begin_where_the_app_is_served(
    enabled: Option<bool>,
    has_app: bool,
    has_state: bool,
)
    ensures
        enabled == Some(true) && has_app && has_state ==> begun(enabled, has_app, has_state)
            == SwitchActionView::Compare,
        enabled == Some(true) && has_app && !has_state ==> begun(enabled, has_app, has_state) == (
        SwitchActionView::Publish { tray: false }),
        enabled is None || enabled == Some(false) || !has_app ==> begun(enabled, has_app, has_state)
            == SwitchActionView::Finish(Ok(false)),
{
}

/// A switch goes on exactly where the current provider is the one that it was decided on: the
/// expected one where one is, or none where the expectation is blank. That of Codex keeps first
/// what is needed to undo it.
pub proof fn switches_go_on_from_the_expected_provider(
    codex: bool,
    current: Option<Seq<char>>,
    expected: Seq<char>,
    error: AppErrorView,
)
    ensures
        ({
            let meant = (trimmed(expected).len() > 0 && current == Some(expected)) || (trimmed(
                expected,
            ).len() == 0 && current is None);
            &&& meant && codex ==> compared(codex, Ok(current), expected)
                == SwitchActionView::Snapshot
            &&& meant && !codex ==> compared(codex, Ok(current), expected)
                == SwitchActionView::Switch
            &&& !meant ==> compared(codex, Ok(current), expected) == SwitchActionView::Finish(
                Ok(false),
            )
            &&& compared(codex, Err(error), expected) == SwitchActionView::Finish(Err(error))
        }),
{
}

/// A switch that happened is announced, that of Codex once its roles are in line; one that changed
/// nothing is not, and one that failed fails with what went wrong.
pub proof fn switches_that_happened_are_announced(codex: bool, error: Seq<char>)
    ensures
        switched(false, Ok(true)) == (SwitchActionView::Publish { tray: true }),
        switched(true, Ok(true)) == SwitchActionView::Reconcile,
        switched(codex, Ok(false)) == SwitchActionView::Finish(Ok(false)),
        switched(codex, Err(error)) == SwitchActionView::Finish(Err(AppErrorView::Message(error))),
{
}

/// What goes wrong in undoing a switch is told in its order, all of it and nothing else.
pub proof fn undoing_tells_what_went_wrong(
    state_errors: Seq<Seq<char>>,
    database: Option<Seq<char>>,
    device: Option<Seq<char>>,
    roles: Option<Seq<char>>,
)
    ensures
        ({
            let told = rollback_texts(state_errors, database, device, roles);
            let count = |error: Option<Seq<char>>| if error is Some {
                1int
            } else {
                0int
            };
            &&& told.len() == state_errors.len() + count(database) + count(device) + count(roles)
            &&& told.take(state_errors.len() as int) == state_errors
            &&& database matches Some(error) ==> told[state_errors.len() as int]
                == "恢复数据库当前 Provider 失败: "@ + error
            &&& device matches Some(error) ==> told[state_errors.len() + count(database)]
                == "恢复设备当前 Provider 失败: "@ + error
            &&& roles matches Some(error) ==> told.last() == "恢复 Codex Agent Role 失败: "@ + error
        }),
{
    let told = rollback_texts(state_errors, database, device, roles);
    assert(told.take(state_errors.len() as int) =~= state_errors);
}

/// A switch that was undone says why, and what went wrong with undoing it where something did.
pub proof fn undone_switches_say_why(error: Seq<char>, first: Seq<char>, second: Seq<char>)
    ensures
        undone_error(error, Seq::empty()) == AppErrorView::Message(
            "同步 Codex Agent Role 失败: "@ + error,
        ),
        undone_error(error, seq![first]) == AppErrorView::Message(
            "同步 Codex Agent Role 失败: "@ + error + "; 回滚错误: "@ + first,
        ),
        undone_error(error, seq![first, second]) == AppErrorView::Message(
            "同步 Codex Agent Role 失败: "@ + error + "; 回滚错误: "@ + first + "; "@ + second,
        ),
{
    let head = "同步 Codex Agent Role 失败: "@ + error;
    assert(head + Seq::<char>::empty() =~= head);
    assert(joined(seq![first], "; "@) == first);
    assert(seq![first, second].drop_last() =~= seq![first]);
    assert(joined(seq![first, second], "; "@) =~= first + "; "@ + second);
    assert(head + ("; 回滚错误: "@ + first) =~= head + "; 回滚错误: "@ + first);
    assert(head + ("; 回滚错误: "@ + (first + "; "@ + second)) =~= head + "; 回滚错误: "@ + first
        + "; "@ + second);
}

/// A switch whose roles are in line is announced, and one whose roles are not is undone.
pub proof fn switches_are_undone_where_roles_are_out_of_line(in_line: bool, action: SwitchAction)
    requires
        call_ensures(after_reconcile, (in_line,), action),
    ensures
        in_line ==> action@ == (SwitchActionView::Publish { tray: true }),
        !in_line ==> action@ is Restore,
{
}

} // verus!
