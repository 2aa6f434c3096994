//! The views tell all that there is to know, and tell it as it is.

use crate::app::{App, MediaTask, ReplyTarget};
use crate::backend::{Plan, PlanView};
use crate::config::Config;
use crate::event::{Event, EventView};
use crate::model::TaskView;
use crate::telegram::{Chat, Command, CommandView, Message, TgEvent, TgEventView};
use crate::text::{opt_text, texts};
use crate::ui::{Line, Span};
use vstd::prelude::*;

verus! {

/// The contents of lists and of optional texts, one by one.
pub proof fn lists_are_told_one_by_one(v: Seq<String>, o: Option<String>, i: int)
    ensures
        texts(v).len() == v.len(),
        0 <= i < v.len() ==> texts(v)[i] == v[i]@,
        opt_text(o) is Some <==> o is Some,
        o is Some ==> opt_text(o)->0 == o->0@,
{
}

/// All that there is to a chat.
pub proof fn chats_are_told(c: Chat)
    ensures
        c@.id == c.id@,
        c@.name == c.name@,
        c@.username is Some <==> c.username is Some,
        c.username matches Some(u) ==> c@.username->0 == u@,
        c@.last_preview == c.last_preview@,
        c@.unread == c.unread,
{
}

/// All that there is to a message.
pub proof fn messages_are_told(m: Message)
    ensures
        m@.id == m.id,
        m@.sender == m.sender@,
        m@.text == m.text@,
        m@.timestamp == m.timestamp,
        m@.outgoing == m.outgoing,
        m@.reply_to_id == m.reply_to_id,
        m@.edited == m.edited,
        m@.media_kind == m.media_kind,
        m@.media_path == m.media_path,
{
}

/// All that there is to a command.
pub proof fn commands_are_told(c: Command)
    ensures
        c is LoadChats <==> c@ is LoadChats,
        c is Shutdown <==> c@ is Shutdown,
        c matches Command::LoadMessages(id) ==> c@ == CommandView::LoadMessages(id@),
        c matches Command::LoadOlder { chat_id, before_id } ==> c@ == (CommandView::LoadOlder {
            chat_id: chat_id@,
            before_id,
        }),
        c matches Command::Send { chat_id, text, reply_to } ==> c@ == (CommandView::Send {
            chat_id: chat_id@,
            text: text@,
            reply_to,
        }),
        c matches Command::Edit { chat_id, msg_id, text } ==> c@ == (CommandView::Edit {
            chat_id: chat_id@,
            msg_id,
            text: text@,
        }),
        c matches Command::FetchMedia { chat_id, msg_id } ==> c@ == (CommandView::FetchMedia {
            chat_id: chat_id@,
            msg_id,
        }),
        c matches Command::Delete { chat_id, ids } ==> c@ == (CommandView::Delete {
            chat_id: chat_id@,
            ids: ids@,
        }),
        c matches Command::SendTyping { chat_id } ==> c@ == (CommandView::SendTyping {
            chat_id: chat_id@,
        }),
{
}

/// All that there is to an event of the actor.
pub proof fn events_are_told(e: TgEvent, i: int)
    ensures
        e is Connected <==> e@ is Connected,
        e is Disconnected <==> e@ is Disconnected,
        e matches TgEvent::Error(text) ==> e@ == TgEventView::Error(text@),
        e matches TgEvent::ChatsLoaded(chats) ==> e@ is ChatsLoaded && e@->ChatsLoaded_0.len()
            == chats@.len() && (0 <= i < chats@.len() ==> e@->ChatsLoaded_0[i] == chats@[i]@),
        e matches TgEvent::MessagesLoaded { chat_id, messages } ==> e@ is MessagesLoaded
            && e@->MessagesLoaded_chat_id == chat_id@ && e@->MessagesLoaded_messages.len()
            == messages@.len() && (0 <= i < messages@.len() ==> e@->MessagesLoaded_messages[i]
            == messages@[i]@),
        e matches TgEvent::OlderMessagesLoaded { chat_id, messages } ==> e@ is OlderMessagesLoaded
            && e@->OlderMessagesLoaded_chat_id == chat_id@ && e@->OlderMessagesLoaded_messages.len()
            == messages@.len() && (0 <= i < messages@.len() ==> e@->OlderMessagesLoaded_messages[i]
            == messages@[i]@),
        e matches TgEvent::MessageSent { chat_id } ==> e@ == (TgEventView::MessageSent {
            chat_id: chat_id@,
        }),
        e matches TgEvent::NewMessage { chat_id, message } ==> e@ == (TgEventView::NewMessage {
            chat_id: chat_id@,
            message: message@,
        }),
        e matches TgEvent::MessageEdited { chat_id, message } ==> e@ == (
        TgEventView::MessageEdited { chat_id: chat_id@, message: message@ }),
        e matches TgEvent::MessageDeleted { chat_id, ids } ==> e@ == (TgEventView::MessageDeleted {
            chat_id: opt_text(chat_id),
            ids: ids@,
        }),
        e matches TgEvent::MediaFetched { chat_id, msg_id, path } ==> e@ == (
        TgEventView::MediaFetched { chat_id: chat_id@, msg_id, path }),
        e matches TgEvent::Typing { chat_id, active } ==> e@ == (TgEventView::Typing {
            chat_id: chat_id@,
            active,
        }),
{
}

/// All that there is to an event of the program.
pub proof fn happenings_are_told(e: Event)
    ensures
        e is Tick <==> e@ is Tick,
        e matches Event::Key(key) ==> e@ == EventView::Key(key),
        e matches Event::Resize(w, h) ==> e@ == EventView::Resize(w, h),
        e matches Event::Tg(tg) ==> e@ == EventView::Tg(tg@),
{
}

/// All that there is to a plan.
pub proof fn plans_are_told(p: Plan)
    ensures
        p is LoadDialogs <==> p@ is LoadDialogs,
        p is Nothing <==> p@ is Nothing,
        p is Stop <==> p@ is Stop,
        p matches Plan::LoadHistory { chat_id, peer, before } ==> p@ == (PlanView::LoadHistory {
            chat_id: chat_id@,
            peer,
            before,
        }),
        p matches Plan::Send { chat_id, peer, text, reply_to } ==> p@ == (PlanView::Send {
            chat_id: chat_id@,
            peer,
            text: text@,
            reply_to,
        }),
        p matches Plan::Edit { peer, msg_id, text } ==> p@ == (PlanView::Edit {
            peer,
            msg_id,
            text: text@,
        }),
        p matches Plan::Delete { peer, ids } ==> p@ == (PlanView::Delete { peer, ids: ids@ }),
        p matches Plan::SendTyping { peer } ==> p@ == (PlanView::SendTyping { peer }),
        p matches Plan::Download { chat_id, msg_id } ==> p@ == (PlanView::Download {
            chat_id: chat_id@,
            msg_id,
        }),
        p matches Plan::Tell(ev) ==> p@ == PlanView::Tell(ev@),
{
}

/// All that there is to the state of the program.
pub proof fn the_state_is_told(a: App, i: int, k: Seq<char>)
    ensures
        a@.should_quit == a.should_quit && a@.mode == a.mode && a@.focus == a.focus,
        a@.sent == a.tg@,
        a@.chats.len() == a.chats@.len(),
        0 <= i < a.chats@.len() ==> a@.chats[i] == a.chats@[i]@,
        a@.chat_cursor == a.chat_cursor && a@.msg_cursor == a.msg_cursor,
        a@.messages.len() == a.messages@.len(),
        0 <= i < a.messages@.len() ==> a@.messages[i] == a.messages@[i]@,
        a@.input == a.input@,
        a@.pending_key == a.pending_key,
        a@.fuzzy is Some <==> a.fuzzy is Some,
        a.fuzzy matches Some(p) ==> a@.fuzzy->0 == p@,
        a@.status == a.status@,
        a@.replying_to is Some <==> a.replying_to is Some,
        a.replying_to matches Some(r) ==> a@.replying_to->0 == r@,
        a@.editing == a.editing,
        a@.image_viewer is Some <==> a.image_viewer is Some,
        a.image_viewer matches Some(v) ==> a@.image_viewer->0 == v.path,
        a@.pending_view is Some <==> a.pending_view is Some,
        a.pending_view matches Some(p) ==> a@.pending_view->0 == (p.0@, p.1),
        a@.player_argv == texts(a.player_argv@),
        a@.tasks.len() == a.tasks@.len(),
        0 <= i < a.tasks@.len() ==> a@.tasks[i] == a.tasks@[i]@,
        a@.loading_older == a.loading_older,
        a@.drafts.contains_key(k) <==> a.drafts@.contains_key(k),
        a.drafts@.contains_key(k) ==> a@.drafts[k] == texts(a.drafts@[k]@),
        a@.typing_until == a.typing_until@,
        a@.last_typing_sent == a.last_typing_sent,
{
}

/// All that there is to an answer that has begun, and to a task.
pub proof fn answers_and_tasks_are_told(r: ReplyTarget, t: MediaTask)
    ensures
        r@.msg_id == r.msg_id && r@.sender == r.sender@ && r@.preview == r.preview@,
        t matches MediaTask::OpenImage(path) ==> t@ == TaskView::OpenImage(path),
        t matches MediaTask::PlayVideo { argv, path } ==> t@ == (TaskView::PlayVideo {
            argv: texts(argv@),
            path,
        }),
{
}

/// All that there is to a line of the screen.
pub proof fn lines_are_told(s: Span, l: Line, i: int)
    ensures
        s@.text == s.text@ && s@.style == s.style,
        l@.len() == l.spans@.len(),
        0 <= i < l.spans@.len() ==> l@[i] == l.spans@[i]@,
{
}

/// All that there is to a configuration.
pub proof fn settings_are_told(c: Config)
    ensures
        c@.api_id == c.api_id,
        c@.api_hash is Some <==> c.api_hash is Some,
        c.api_hash matches Some(h) ==> c@.api_hash->0 == h@,
        c@.player is Some <==> c.media.player is Some,
        c.media.player matches Some(argv) ==> c@.player->0 == texts(argv@),
{
}

} // verus!
