//! The decisions of the interactive command line: what a typed line asks for, and how
//! the outcome of each request is told to the user.
use vstd::prelude::*;
use crate::node::CoreError;
use crate::text::{chars_of, contains_seq, find_char, has_prefix, lowercase, string_from_range, trim,
    trim_chars};

verus! {

/// A request typed at the prompt.
#[derive(Debug, Clone, Copy, PartialEq, Eq, Structural)]
pub enum Command {
    Help,
    Link,
    Contacts,
    Init,
    Start,
    Stop,
    Restart,
    Quit,
    Chat,
    Add,
    Ping,
    Status,
    Stats,
    Clear,
    Empty,
    Unknown,
}

/// The request named by `w`, a word already in lower case; each has an English and a
/// Russian name.
pub open spec fn command_named(w: Seq<char>) -> Command {
    if w == "help"@ || w == "помощь"@ {
        Command::Help
    } else if w == "link"@ || w == "ссылка"@ {
        Command::Link
    } else if w == "contacts"@ || w == "контакты"@ {
        Command::Contacts
    } else if w == "init"@ || w == "инит"@ {
        Command::Init
    } else if w == "start"@ || w == "запуск"@ {
        Command::Start
    } else if w == "stop"@ || w == "остановка"@ {
        Command::Stop
    } else if w == "restart"@ || w == "перезапуск"@ {
        Command::Restart
    } else if w == "quit"@ || w == "exit"@ || w == "q"@ || w == "выход"@ {
        Command::Quit
    } else if w == "chat"@ || w == "чат"@ {
        Command::Chat
    } else if w == "add"@ || w == "добавить"@ {
        Command::Add
    } else if w == "ping"@ || w == "пинг"@ {
        Command::Ping
    } else if w == "status"@ || w == "статус"@ {
        Command::Status
    } else if w == "stats"@ || w == "статистика"@ {
        Command::Stats
    } else if w == "clear"@ || w == "очистить"@ {
        Command::Clear
    } else if w.len() == 0 {
        Command::Empty
    } else {
        Command::Unknown
    }
}

/// Each request is named by its own words and by no other: distinct requests never share a
/// word, so `stats` asks for the statistics and `status` for the status.
pub proof fn lemma_command_words(w: Seq<char>)
    ensures
        command_named(w) == Command::Help <==> (w == "help"@ || w == "помощь"@),
        command_named(w) == Command::Link <==> (w == "link"@ || w == "ссылка"@),
        command_named(w) == Command::Contacts <==> (w == "contacts"@ || w == "контакты"@),
        command_named(w) == Command::Init <==> (w == "init"@ || w == "инит"@),
        command_named(w) == Command::Start <==> (w == "start"@ || w == "запуск"@),
        command_named(w) == Command::Stop <==> (w == "stop"@ || w == "остановка"@),
        command_named(w) == Command::Restart <==> (w == "restart"@ || w == "перезапуск"@),
        command_named(w) == Command::Quit <==> (w == "quit"@ || w == "exit"@ || w == "q"@ || w == "выход"@),
        command_named(w) == Command::Chat <==> (w == "chat"@ || w == "чат"@),
        command_named(w) == Command::Add <==> (w == "add"@ || w == "добавить"@),
        command_named(w) == Command::Ping <==> (w == "ping"@ || w == "пинг"@),
        command_named(w) == Command::Status <==> (w == "status"@ || w == "статус"@),
        command_named(w) == Command::Stats <==> (w == "stats"@ || w == "статистика"@),
        command_named(w) == Command::Clear <==> (w == "clear"@ || w == "очистить"@),
        command_named(w) == Command::Empty <==> w.len() == 0,
{
    lemma_words_help();
    lemma_words_link();
    lemma_words_contacts();
    lemma_words_init();
    lemma_words_start();
    lemma_words_stop();
    lemma_words_restart();
    lemma_words_quit();
    lemma_words_chat();
    lemma_words_add();
    lemma_words_ping();
    lemma_words_status();
    lemma_words_stats();
    lemma_words_clear();
}

/// The words of `Help` name it.
proof fn lemma_words_help()
    ensures
        command_named("help"@) == Command::Help,
        "help"@.len() > 0,
        command_named("помощь"@) == Command::Help,
        "помощь"@.len() > 0,
{
    reveal_strlit("help");
    assert("help"@.len() == 4);
    reveal_strlit("помощь");
    assert("помощь"@.len() == 6);
}

/// The words of `Link` name it.
proof fn lemma_words_link()
    ensures
        command_named("link"@) == Command::Link,
        "link"@.len() > 0,
        command_named("ссылка"@) == Command::Link,
        "ссылка"@.len() > 0,
{
    reveal_strlit("help");
    assert("help"@.len() == 4);
    reveal_strlit("помощь");
    assert("помощь"@.len() == 6);
    reveal_strlit("link");
    assert("link"@.len() == 4);
    reveal_strlit("ссылка");
    assert("ссылка"@.len() == 6);
    assert("link"@[0] != "help"@[0]);
    assert("ссылка"@[0] != "помощь"@[0]);
}

/// The words of `Contacts` name it.
proof fn lemma_words_contacts()
    ensures
        command_named("contacts"@) == Command::Contacts,
        "contacts"@.len() > 0,
        command_named("контакты"@) == Command::Contacts,
        "контакты"@.len() > 0,
{
    reveal_strlit("help");
    assert("help"@.len() == 4);
    reveal_strlit("помощь");
    assert("помощь"@.len() == 6);
    reveal_strlit("link");
    assert("link"@.len() == 4);
    reveal_strlit("ссылка");
    assert("ссылка"@.len() == 6);
    reveal_strlit("contacts");
    assert("contacts"@.len() == 8);
    reveal_strlit("контакты");
    assert("контакты"@.len() == 8);
    assert("контакты"@[0] != "contacts"@[0]);
}

/// The words of `Init` name it.
proof fn lemma_words_init()
    ensures
        command_named("init"@) == Command::Init,
        "init"@.len() > 0,
        command_named("инит"@) == Command::Init,
        "инит"@.len() > 0,
{
    reveal_strlit("help");
    assert("help"@.len() == 4);
    reveal_strlit("помощь");
    assert("помощь"@.len() == 6);
    reveal_strlit("link");
    assert("link"@.len() == 4);
    reveal_strlit("ссылка");
    assert("ссылка"@.len() == 6);
    reveal_strlit("contacts");
    assert("contacts"@.len() == 8);
    reveal_strlit("контакты");
    assert("контакты"@.len() == 8);
    reveal_strlit("init");
    assert("init"@.len() == 4);
    reveal_strlit("инит");
    assert("инит"@.len() == 4);
    assert("init"@[0] != "help"@[0]);
    assert("init"@[0] != "link"@[0]);
    assert("инит"@[0] != "help"@[0]);
    assert("инит"@[0] != "link"@[0]);
    assert("инит"@[0] != "init"@[0]);
}

/// The words of `Start` name it.
proof fn lemma_words_start()
    ensures
        command_named("start"@) == Command::Start,
        "start"@.len() > 0,
        command_named("запуск"@) == Command::Start,
        "запуск"@.len() > 0,
{
    reveal_strlit("help");
    assert("help"@.len() == 4);
    reveal_strlit("помощь");
    assert("помощь"@.len() == 6);
    reveal_strlit("link");
    assert("link"@.len() == 4);
    reveal_strlit("ссылка");
    assert("ссылка"@.len() == 6);
    reveal_strlit("contacts");
    assert("contacts"@.len() == 8);
    reveal_strlit("контакты");
    assert("контакты"@.len() == 8);
    reveal_strlit("init");
    assert("init"@.len() == 4);
    reveal_strlit("инит");
    assert("инит"@.len() == 4);
    reveal_strlit("start");
    assert("start"@.len() == 5);
    reveal_strlit("запуск");
    assert("запуск"@.len() == 6);
    assert("запуск"@[0] != "помощь"@[0]);
    assert("запуск"@[0] != "ссылка"@[0]);
}

/// The words of `Stop` name it.
proof fn lemma_words_stop()
    ensures
        command_named("stop"@) == Command::Stop,
        "stop"@.len() > 0,
        command_named("остановка"@) == Command::Stop,
        "остановка"@.len() > 0,
{
    reveal_strlit("help");
    assert("help"@.len() == 4);
    reveal_strlit("помощь");
    assert("помощь"@.len() == 6);
    reveal_strlit("link");
    assert("link"@.len() == 4);
    reveal_strlit("ссылка");
    assert("ссылка"@.len() == 6);
    reveal_strlit("contacts");
    assert("contacts"@.len() == 8);
    reveal_strlit("контакты");
    assert("контакты"@.len() == 8);
    reveal_strlit("init");
    assert("init"@.len() == 4);
    reveal_strlit("инит");
    assert("инит"@.len() == 4);
    reveal_strlit("start");
    assert("start"@.len() == 5);
    reveal_strlit("запуск");
    assert("запуск"@.len() == 6);
    reveal_strlit("stop");
    assert("stop"@.len() == 4);
    reveal_strlit("остановка");
    assert("остановка"@.len() == 9);
    assert("stop"@[0] != "help"@[0]);
    assert("stop"@[0] != "link"@[0]);
    assert("stop"@[0] != "init"@[0]);
    assert("stop"@[0] != "инит"@[0]);
}

/// The words of `Restart` name it.
proof fn lemma_words_restart()
    ensures
        command_named("restart"@) == Command::Restart,
        "restart"@.len() > 0,
        command_named("перезапуск"@) == Command::Restart,
        "перезапуск"@.len() > 0,
{
    reveal_strlit("help");
    assert("help"@.len() == 4);
    reveal_strlit("помощь");
    assert("помощь"@.len() == 6);
    reveal_strlit("link");
    assert("link"@.len() == 4);
    reveal_strlit("ссылка");
    assert("ссылка"@.len() == 6);
    reveal_strlit("contacts");
    assert("contacts"@.len() == 8);
    reveal_strlit("контакты");
    assert("контакты"@.len() == 8);
    reveal_strlit("init");
    assert("init"@.len() == 4);
    reveal_strlit("инит");
    assert("инит"@.len() == 4);
    reveal_strlit("start");
    assert("start"@.len() == 5);
    reveal_strlit("запуск");
    assert("запуск"@.len() == 6);
    reveal_strlit("stop");
    assert("stop"@.len() == 4);
    reveal_strlit("остановка");
    assert("остановка"@.len() == 9);
    reveal_strlit("restart");
    assert("restart"@.len() == 7);
    reveal_strlit("перезапуск");
    assert("перезапуск"@.len() == 10);
}

/// The words of `Quit` name it.
proof fn lemma_words_quit()
    ensures
        command_named("quit"@) == Command::Quit,
        "quit"@.len() > 0,
        command_named("exit"@) == Command::Quit,
        "exit"@.len() > 0,
        command_named("q"@) == Command::Quit,
        "q"@.len() > 0,
        command_named("выход"@) == Command::Quit,
        "выход"@.len() > 0,
{
    reveal_strlit("help");
    assert("help"@.len() == 4);
    reveal_strlit("помощь");
    assert("помощь"@.len() == 6);
    reveal_strlit("link");
    assert("link"@.len() == 4);
    reveal_strlit("ссылка");
    assert("ссылка"@.len() == 6);
    reveal_strlit("contacts");
    assert("contacts"@.len() == 8);
    reveal_strlit("контакты");
    assert("контакты"@.len() == 8);
    reveal_strlit("init");
    assert("init"@.len() == 4);
    reveal_strlit("инит");
    assert("инит"@.len() == 4);
    reveal_strlit("start");
    assert("start"@.len() == 5);
    reveal_strlit("запуск");
    assert("запуск"@.len() == 6);
    reveal_strlit("stop");
    assert("stop"@.len() == 4);
    reveal_strlit("остановка");
    assert("остановка"@.len() == 9);
    reveal_strlit("restart");
    assert("restart"@.len() == 7);
    reveal_strlit("перезапуск");
    assert("перезапуск"@.len() == 10);
    reveal_strlit("quit");
    assert("quit"@.len() == 4);
    reveal_strlit("exit");
    assert("exit"@.len() == 4);
    reveal_strlit("q");
    assert("q"@.len() == 1);
    reveal_strlit("выход");
    assert("выход"@.len() == 5);
    assert("quit"@[0] != "help"@[0]);
    assert("quit"@[0] != "link"@[0]);
    assert("quit"@[0] != "init"@[0]);
    assert("quit"@[0] != "инит"@[0]);
    assert("quit"@[0] != "stop"@[0]);
    assert("exit"@[0] != "help"@[0]);
    assert("exit"@[0] != "link"@[0]);
    assert("exit"@[0] != "init"@[0]);
    assert("exit"@[0] != "инит"@[0]);
    assert("exit"@[0] != "stop"@[0]);
    assert("exit"@[0] != "quit"@[0]);
    assert("выход"@[0] != "start"@[0]);
}

/// The words of `Chat` name it.
proof fn lemma_words_chat()
    ensures
        command_named("chat"@) == Command::Chat,
        "chat"@.len() > 0,
        command_named("чат"@) == Command::Chat,
        "чат"@.len() > 0,
{
    reveal_strlit("help");
    assert("help"@.len() == 4);
    reveal_strlit("помощь");
    assert("помощь"@.len() == 6);
    reveal_strlit("link");
    assert("link"@.len() == 4);
    reveal_strlit("ссылка");
    assert("ссылка"@.len() == 6);
    reveal_strlit("contacts");
    assert("contacts"@.len() == 8);
    reveal_strlit("контакты");
    assert("контакты"@.len() == 8);
    reveal_strlit("init");
    assert("init"@.len() == 4);
    reveal_strlit("инит");
    assert("инит"@.len() == 4);
    reveal_strlit("start");
    assert("start"@.len() == 5);
    reveal_strlit("запуск");
    assert("запуск"@.len() == 6);
    reveal_strlit("stop");
    assert("stop"@.len() == 4);
    reveal_strlit("остановка");
    assert("остановка"@.len() == 9);
    reveal_strlit("restart");
    assert("restart"@.len() == 7);
    reveal_strlit("перезапуск");
    assert("перезапуск"@.len() == 10);
    reveal_strlit("quit");
    assert("quit"@.len() == 4);
    reveal_strlit("exit");
    assert("exit"@.len() == 4);
    reveal_strlit("q");
    assert("q"@.len() == 1);
    reveal_strlit("выход");
    assert("выход"@.len() == 5);
    reveal_strlit("chat");
    assert("chat"@.len() == 4);
    reveal_strlit("чат");
    assert("чат"@.len() == 3);
    assert("chat"@[0] != "help"@[0]);
    assert("chat"@[0] != "link"@[0]);
    assert("chat"@[0] != "init"@[0]);
    assert("chat"@[0] != "инит"@[0]);
    assert("chat"@[0] != "stop"@[0]);
    assert("chat"@[0] != "quit"@[0]);
    assert("chat"@[0] != "exit"@[0]);
}

/// The words of `Add` name it.
proof fn lemma_words_add()
    ensures
        command_named("add"@) == Command::Add,
        "add"@.len() > 0,
        command_named("добавить"@) == Command::Add,
        "добавить"@.len() > 0,
{
    reveal_strlit("help");
    assert("help"@.len() == 4);
    reveal_strlit("помощь");
    assert("помощь"@.len() == 6);
    reveal_strlit("link");
    assert("link"@.len() == 4);
    reveal_strlit("ссылка");
    assert("ссылка"@.len() == 6);
    reveal_strlit("contacts");
    assert("contacts"@.len() == 8);
    reveal_strlit("контакты");
    assert("контакты"@.len() == 8);
    reveal_strlit("init");
    assert("init"@.len() == 4);
    reveal_strlit("инит");
    assert("инит"@.len() == 4);
    reveal_strlit("start");
    assert("start"@.len() == 5);
    reveal_strlit("запуск");
    assert("запуск"@.len() == 6);
    reveal_strlit("stop");
    assert("stop"@.len() == 4);
    reveal_strlit("остановка");
    assert("остановка"@.len() == 9);
    reveal_strlit("restart");
    assert("restart"@.len() == 7);
    reveal_strlit("перезапуск");
    assert("перезапуск"@.len() == 10);
    reveal_strlit("quit");
    assert("quit"@.len() == 4);
    reveal_strlit("exit");
    assert("exit"@.len() == 4);
    reveal_strlit("q");
    assert("q"@.len() == 1);
    reveal_strlit("выход");
    assert("выход"@.len() == 5);
    reveal_strlit("chat");
    assert("chat"@.len() == 4);
    reveal_strlit("чат");
    assert("чат"@.len() == 3);
    reveal_strlit("add");
    assert("add"@.len() == 3);
    reveal_strlit("добавить");
    assert("добавить"@.len() == 8);
    assert("add"@[0] != "чат"@[0]);
    assert("добавить"@[0] != "contacts"@[0]);
    assert("добавить"@[0] != "контакты"@[0]);
}

/// The words of `Ping` name it.
proof fn lemma_words_ping()
    ensures
        command_named("ping"@) == Command::Ping,
        "ping"@.len() > 0,
        command_named("пинг"@) == Command::Ping,
        "пинг"@.len() > 0,
{
    reveal_strlit("help");
    assert("help"@.len() == 4);
    reveal_strlit("помощь");
    assert("помощь"@.len() == 6);
    reveal_strlit("link");
    assert("link"@.len() == 4);
    reveal_strlit("ссылка");
    assert("ссылка"@.len() == 6);
    reveal_strlit("contacts");
    assert("contacts"@.len() == 8);
    reveal_strlit("контакты");
    assert("контакты"@.len() == 8);
    reveal_strlit("init");
    assert("init"@.len() == 4);
    reveal_strlit("инит");
    assert("инит"@.len() == 4);
    reveal_strlit("start");
    assert("start"@.len() == 5);
    reveal_strlit("запуск");
    assert("запуск"@.len() == 6);
    reveal_strlit("stop");
    assert("stop"@.len() == 4);
    reveal_strlit("остановка");
    assert("остановка"@.len() == 9);
    reveal_strlit("restart");
    assert("restart"@.len() == 7);
    reveal_strlit("перезапуск");
    assert("перезапуск"@.len() == 10);
    reveal_strlit("quit");
    assert("quit"@.len() == 4);
    reveal_strlit("exit");
    assert("exit"@.len() == 4);
    reveal_strlit("q");
    assert("q"@.len() == 1);
    reveal_strlit("выход");
    assert("выход"@.len() == 5);
    reveal_strlit("chat");
    assert("chat"@.len() == 4);
    reveal_strlit("чат");
    assert("чат"@.len() == 3);
    reveal_strlit("add");
    assert("add"@.len() == 3);
    reveal_strlit("добавить");
    assert("добавить"@.len() == 8);
    reveal_strlit("ping");
    assert("ping"@.len() == 4);
    reveal_strlit("пинг");
    assert("пинг"@.len() == 4);
    assert("ping"@[0] != "help"@[0]);
    assert("ping"@[0] != "link"@[0]);
    assert("ping"@[0] != "init"@[0]);
    assert("ping"@[0] != "инит"@[0]);
    assert("ping"@[0] != "stop"@[0]);
    assert("ping"@[0] != "quit"@[0]);
    assert("ping"@[0] != "exit"@[0]);
    assert("ping"@[0] != "chat"@[0]);
    assert("пинг"@[0] != "help"@[0]);
    assert("пинг"@[0] != "link"@[0]);
    assert("пинг"@[0] != "init"@[0]);
    assert("пинг"@[0] != "инит"@[0]);
    assert("пинг"@[0] != "stop"@[0]);
    assert("пинг"@[0] != "quit"@[0]);
    assert("пинг"@[0] != "exit"@[0]);
    assert("пинг"@[0] != "chat"@[0]);
    assert("пинг"@[0] != "ping"@[0]);
}

/// The words of `Status` name it.
proof fn lemma_words_status()
    ensures
        command_named("status"@) == Command::Status,
        "status"@.len() > 0,
        command_named("статус"@) == Command::Status,
        "статус"@.len() > 0,
{
    reveal_strlit("help");
    assert("help"@.len() == 4);
    reveal_strlit("помощь");
    assert("помощь"@.len() == 6);
    reveal_strlit("link");
    assert("link"@.len() == 4);
    reveal_strlit("ссылка");
    assert("ссылка"@.len() == 6);
    reveal_strlit("contacts");
    assert("contacts"@.len() == 8);
    reveal_strlit("контакты");
    assert("контакты"@.len() == 8);
    reveal_strlit("init");
    assert("init"@.len() == 4);
    reveal_strlit("инит");
    assert("инит"@.len() == 4);
    reveal_strlit("start");
    assert("start"@.len() == 5);
    reveal_strlit("запуск");
    assert("запуск"@.len() == 6);
    reveal_strlit("stop");
    assert("stop"@.len() == 4);
    reveal_strlit("остановка");
    assert("остановка"@.len() == 9);
    reveal_strlit("restart");
    assert("restart"@.len() == 7);
    reveal_strlit("перезапуск");
    assert("перезапуск"@.len() == 10);
    reveal_strlit("quit");
    assert("quit"@.len() == 4);
    reveal_strlit("exit");
    assert("exit"@.len() == 4);
    reveal_strlit("q");
    assert("q"@.len() == 1);
    reveal_strlit("выход");
    assert("выход"@.len() == 5);
    reveal_strlit("chat");
    assert("chat"@.len() == 4);
    reveal_strlit("чат");
    assert("чат"@.len() == 3);
    reveal_strlit("add");
    assert("add"@.len() == 3);
    reveal_strlit("добавить");
    assert("добавить"@.len() == 8);
    reveal_strlit("ping");
    assert("ping"@.len() == 4);
    reveal_strlit("пинг");
    assert("пинг"@.len() == 4);
    reveal_strlit("status");
    assert("status"@.len() == 6);
    reveal_strlit("статус");
    assert("статус"@.len() == 6);
    assert("status"@[0] != "помощь"@[0]);
    assert("status"@[0] != "ссылка"@[0]);
    assert("status"@[0] != "запуск"@[0]);
    assert("статус"@[0] != "помощь"@[0]);
    assert("статус"@[1] != "ссылка"@[1]);
    assert("статус"@[0] != "запуск"@[0]);
    assert("статус"@[0] != "status"@[0]);
}

/// The words of `Stats` name it.
proof fn lemma_words_stats()
    ensures
        command_named("stats"@) == Command::Stats,
        "stats"@.len() > 0,
        command_named("статистика"@) == Command::Stats,
        "статистика"@.len() > 0,
{
    reveal_strlit("help");
    assert("help"@.len() == 4);
    reveal_strlit("помощь");
    assert("помощь"@.len() == 6);
    reveal_strlit("link");
    assert("link"@.len() == 4);
    reveal_strlit("ссылка");
    assert("ссылка"@.len() == 6);
    reveal_strlit("contacts");
    assert("contacts"@.len() == 8);
    reveal_strlit("контакты");
    assert("контакты"@.len() == 8);
    reveal_strlit("init");
    assert("init"@.len() == 4);
    reveal_strlit("инит");
    assert("инит"@.len() == 4);
    reveal_strlit("start");
    assert("start"@.len() == 5);
    reveal_strlit("запуск");
    assert("запуск"@.len() == 6);
    reveal_strlit("stop");
    assert("stop"@.len() == 4);
    reveal_strlit("остановка");
    assert("остановка"@.len() == 9);
    reveal_strlit("restart");
    assert("restart"@.len() == 7);
    reveal_strlit("перезапуск");
    assert("перезапуск"@.len() == 10);
    reveal_strlit("quit");
    assert("quit"@.len() == 4);
    reveal_strlit("exit");
    assert("exit"@.len() == 4);
    reveal_strlit("q");
    assert("q"@.len() == 1);
    reveal_strlit("выход");
    assert("выход"@.len() == 5);
    reveal_strlit("chat");
    assert("chat"@.len() == 4);
    reveal_strlit("чат");
    assert("чат"@.len() == 3);
    reveal_strlit("add");
    assert("add"@.len() == 3);
    reveal_strlit("добавить");
    assert("добавить"@.len() == 8);
    reveal_strlit("ping");
    assert("ping"@.len() == 4);
    reveal_strlit("пинг");
    assert("пинг"@.len() == 4);
    reveal_strlit("status");
    assert("status"@.len() == 6);
    reveal_strlit("статус");
    assert("статус"@.len() == 6);
    reveal_strlit("stats");
    assert("stats"@.len() == 5);
    reveal_strlit("статистика");
    assert("статистика"@.len() == 10);
    assert("stats"@[3] != "start"@[3]);
    assert("stats"@[0] != "выход"@[0]);
    assert("статистика"@[0] != "перезапуск"@[0]);
}

/// The words of `Clear` name it.
proof fn lemma_words_clear()
    ensures
        command_named("clear"@) == Command::Clear,
        "clear"@.len() > 0,
        command_named("очистить"@) == Command::Clear,
        "очистить"@.len() > 0,
{
    reveal_strlit("help");
    assert("help"@.len() == 4);
    reveal_strlit("помощь");
    assert("помощь"@.len() == 6);
    reveal_strlit("link");
    assert("link"@.len() == 4);
    reveal_strlit("ссылка");
    assert("ссылка"@.len() == 6);
    reveal_strlit("contacts");
    assert("contacts"@.len() == 8);
    reveal_strlit("контакты");
    assert("контакты"@.len() == 8);
    reveal_strlit("init");
    assert("init"@.len() == 4);
    reveal_strlit("инит");
    assert("инит"@.len() == 4);
    reveal_strlit("start");
    assert("start"@.len() == 5);
    reveal_strlit("запуск");
    assert("запуск"@.len() == 6);
    reveal_strlit("stop");
    assert("stop"@.len() == 4);
    reveal_strlit("остановка");
    assert("остановка"@.len() == 9);
    reveal_strlit("restart");
    assert("restart"@.len() == 7);
    reveal_strlit("перезапуск");
    assert("перезапуск"@.len() == 10);
    reveal_strlit("quit");
    assert("quit"@.len() == 4);
    reveal_strlit("exit");
    assert("exit"@.len() == 4);
    reveal_strlit("q");
    assert("q"@.len() == 1);
    reveal_strlit("выход");
    assert("выход"@.len() == 5);
    reveal_strlit("chat");
    assert("chat"@.len() == 4);
    reveal_strlit("чат");
    assert("чат"@.len() == 3);
    reveal_strlit("add");
    assert("add"@.len() == 3);
    reveal_strlit("добавить");
    assert("добавить"@.len() == 8);
    reveal_strlit("ping");
    assert("ping"@.len() == 4);
    reveal_strlit("пинг");
    assert("пинг"@.len() == 4);
    reveal_strlit("status");
    assert("status"@.len() == 6);
    reveal_strlit("статус");
    assert("статус"@.len() == 6);
    reveal_strlit("stats");
    assert("stats"@.len() == 5);
    reveal_strlit("статистика");
    assert("статистика"@.len() == 10);
    reveal_strlit("clear");
    assert("clear"@.len() == 5);
    reveal_strlit("очистить");
    assert("очистить"@.len() == 8);
    assert("clear"@[0] != "start"@[0]);
    assert("clear"@[0] != "выход"@[0]);
    assert("clear"@[0] != "stats"@[0]);
    assert("очистить"@[0] != "contacts"@[0]);
    assert("очистить"@[0] != "контакты"@[0]);
    assert("очистить"@[0] != "добавить"@[0]);
}

/// The request named by `w`, a word already in lower case.
pub fn command_of(w: &String) -> (res: Command)
    ensures
        res == command_named(w@),
{
    let is = |t: &str| -> (b: bool)
        ensures
            b == (w@ == t@),
        { *w == t.to_owned() };
    if is("help") || is("помощь") {
        Command::Help
    } else if is("link") || is("ссылка") {
        Command::Link
    } else if is("contacts") || is("контакты") {
        Command::Contacts
    } else if is("init") || is("инит") {
        Command::Init
    } else if is("start") || is("запуск") {
        Command::Start
    } else if is("stop") || is("остановка") {
        Command::Stop
    } else if is("restart") || is("перезапуск") {
        Command::Restart
    } else if is("quit") || is("exit") || is("q") || is("выход") {
        Command::Quit
    } else if is("chat") || is("чат") {
        Command::Chat
    } else if is("add") || is("добавить") {
        Command::Add
    } else if is("ping") || is("пинг") {
        Command::Ping
    } else if is("status") || is("статус") {
        Command::Status
    } else if is("stats") || is("статистика") {
        Command::Stats
    } else if is("clear") || is("очистить") {
        Command::Clear
    } else if w.as_str().unicode_len() == 0 {
        Command::Empty
    } else {
        Command::Unknown
    }
}

/// A typed line split at its first space, after trimming: the word before it and the rest;
/// the whole line and nothing where there is no space.
pub open spec fn split_line(line: Seq<char>) -> (Seq<char>, Seq<char>) {
    let t = trim(line);
    if exists|i: int| 0 <= i < t.len() && t[i] == ' ' {
        let i = choose|i: int| 0 <= i < t.len() && t[i] == ' ' && forall|j: int| 0 <= j < i ==> t[j] != ' ';
        (t.subrange(0, i), t.subrange(i + 1, t.len() as int))
    } else {
        (t, Seq::empty())
    }
}

/// What a typed line asks for: the request, the command word in lower case, and the rest of
/// the line.
pub fn parse_command_line(input: &str) -> (res: (Command, String, String))
    ensures
        res.1@ == lowercase(split_line(input@).0),
        res.2@ == split_line(input@).1,
        res.0 == command_named(res.1@),
{
    let cs = chars_of(input);
    let t = trim_chars(cs.as_slice());
    let ghost tv = trim(input@);
    let (word, args) = match find_char(t.as_slice(), ' ') {
        Some(i) => {
            proof {
                let k = choose|k: int| 0 <= k < tv.len() && tv[k] == ' ' && forall|j: int| 0 <= j < k ==> tv[j] != ' ';
                if k < i {
                } else if k > i {
                }
                assert(k == i);
            }
            let n = t.len();
            assert(i < n);
            let after = i + 1;
            (string_from_range(t.as_slice(), 0, i), string_from_range(t.as_slice(), after, n))
        },
        None => (string_from_range(t.as_slice(), 0, t.len()), String::new()),
    };
    assert(t@.subrange(0, t@.len() as int) =~= t@);
    let lw = crate::text::to_lowercase(word.as_str());
    let cmd = command_of(&lw);
    (cmd, lw, args)
}

/// What an `add` request with argument text `args` leads to.
#[derive(Debug, Clone, PartialEq, Eq)]
pub enum AddCheck {
    /// The system is not initialized yet.
    NotInitialized,
    /// No link was given: show how to use the request.
    Usage,
    /// The link does not open with `sg://`.
    BadScheme,
    /// The link is too short to hold a peer.
    TooShort,
    /// The trimmed link, to be added.
    Proceed(String),
}

/// Checks an `add` request with argument text `args`, on a system initialized or not.
pub fn check_add_args(initialized: bool, args: &str) -> (res: AddCheck)
    requires
        vstd::utf8::encode_utf8(trim(args@)).len() <= usize::MAX,
    ensures
        !initialized ==> res == AddCheck::NotInitialized,
        initialized && args@.len() == 0 ==> res == AddCheck::Usage,
        initialized && args@.len() > 0 && !has_prefix(trim(args@), "sg://"@) ==> res == AddCheck::BadScheme,
        initialized && args@.len() > 0 && has_prefix(trim(args@), "sg://"@) && vstd::utf8::encode_utf8(
            trim(args@),
        ).len() < 10 ==> res == AddCheck::TooShort,
        initialized && args@.len() > 0 && has_prefix(trim(args@), "sg://"@) && vstd::utf8::encode_utf8(
            trim(args@),
        ).len() >= 10 ==> (res matches AddCheck::Proceed(l) && l@ == trim(args@)),
{
    if !initialized {
        return AddCheck::NotInitialized;
    }
    let cs = chars_of(args);
    if cs.len() == 0 {
        return AddCheck::Usage;
    }
    let t = trim_chars(cs.as_slice());
    let scheme = "sg://".to_owned();
    let sc = chars_of(scheme.as_str());
    if !crate::text::starts_with_chars(t.as_slice(), sc.as_slice()) {
        return AddCheck::BadScheme;
    }
    let link = crate::text::string_from_chars(t.as_slice());
    if link.as_str().len() < 10 {
        return AddCheck::TooShort;
    }
    AddCheck::Proceed(link)
}

/// Why adding a contact by link failed, as told to the user.
#[derive(Debug, Clone, Copy, PartialEq, Eq, Structural)]
pub enum AddFailure {
    /// The link's bytes are not text: it is damaged.
    Corrupted,
    /// The link is not Base64.
    Undecodable,
    /// The link is the user's own.
    SelfLink,
    /// The contact is known already.
    Exists,
    /// The link's text is not a peer record.
    BadData,
    /// Another problem of the contact.
    OtherContact,
    /// Another error.
    Other,
}

/// How a failure to add a contact by link is told, by what its message holds.
pub open spec fn add_failure_of(e: CoreError) -> AddFailure {
    match e {
        CoreError::Contact(m) => if contains_seq(m@, "UTF-8 conversion failed"@) {
            AddFailure::Corrupted
        } else if contains_seq(m@, "Decode error"@) {
            AddFailure::Undecodable
        } else if contains_seq(m@, "Cannot add yourself"@) {
            AddFailure::SelfLink
        } else if contains_seq(m@, "already exists"@) {
            AddFailure::Exists
        } else if contains_seq(m@, "JSON parse failed"@) {
            AddFailure::BadData
        } else {
            AddFailure::OtherContact
        },
        _ => AddFailure::Other,
    }
}

/// Whether the text `m` holds `n`.
fn holds(m: &String, n: &str) -> (res: bool)
    ensures
        res == contains_seq(m@, n@),
{
    let mc = chars_of(m.as_str());
    let nc = chars_of(n);
    crate::text::contains_chars(mc.as_slice(), nc.as_slice())
}

/// How a failure to add a contact by link is told.
pub fn classify_add_failure(e: &CoreError) -> (res: AddFailure)
    ensures
        res == add_failure_of(*e),
{
    match e {
        CoreError::Contact(m) => if holds(m, "UTF-8 conversion failed") {
            AddFailure::Corrupted
        } else if holds(m, "Decode error") {
            AddFailure::Undecodable
        } else if holds(m, "Cannot add yourself") {
            AddFailure::SelfLink
        } else if holds(m, "already exists") {
            AddFailure::Exists
        } else if holds(m, "JSON parse failed") {
            AddFailure::BadData
        } else {
            AddFailure::OtherContact
        },
        _ => AddFailure::Other,
    }
}

/// What a line typed in a chat asks for.
#[derive(Debug, Clone, PartialEq, Eq)]
pub enum ChatInput {
    /// Nothing was typed.
    Skip,
    /// Leave the chat.
    Exit,
    /// Show the whole history.
    History,
    /// Send the trimmed text.
    Send(String),
}

/// What the chat line `line` asks for.
pub fn chat_input_action(line: &str) -> (res: ChatInput)
    ensures
        trim(line@).len() == 0 ==> res == ChatInput::Skip,
        trim(line@).len() > 0 && lowercase(trim(line@)) == "exit"@ ==> res == ChatInput::Exit,
        trim(line@).len() > 0 && lowercase(trim(line@)) != "exit"@ && trim(line@) == "/history"@ ==> res
            == ChatInput::History,
        trim(line@).len() > 0 && lowercase(trim(line@)) != "exit"@ && trim(line@) != "/history"@ ==> (res matches ChatInput::Send(t)
            && t@ == trim(line@)),
{
    let cs = chars_of(line);
    let t = trim_chars(cs.as_slice());
    if t.len() == 0 {
        return ChatInput::Skip;
    }
    let text = crate::text::string_from_chars(t.as_slice());
    let lower = crate::text::to_lowercase(text.as_str());
    if lower == "exit".to_owned() {
        return ChatInput::Exit;
    }
    if text == "/history".to_owned() {
        return ChatInput::History;
    }
    ChatInput::Send(text)
}

/// Why sending in a chat failed, as told to the user.
#[derive(Debug, Clone, Copy, PartialEq, Eq, Structural)]
pub enum SendFailure {
    /// The local server is not running.
    ServerNotStarted,
    /// The contact cannot be reached.
    Unreachable,
    /// The connection timed out.
    Timeout,
    /// Another network problem.
    OtherNetwork,
    /// Another error.
    Other,
}

/// How a failure to send in a chat is told, by the error and what its message holds.
pub open spec fn send_failure_of(e: CoreError) -> SendFailure {
    match e {
        CoreError::InvalidState(m) => if contains_seq(m@, "Сервер не запущен"@) {
            SendFailure::ServerNotStarted
        } else {
            SendFailure::Other
        },
        CoreError::Network(m) => if contains_seq(m@, "Connection refused"@) || contains_seq(m@, "недоступен"@) {
            SendFailure::Unreachable
        } else if contains_seq(m@, "timeout"@) || contains_seq(m@, "Таймаут"@) {
            SendFailure::Timeout
        } else {
            SendFailure::OtherNetwork
        },
        _ => SendFailure::Other,
    }
}

/// How a failure to send in a chat is told.
pub fn classify_send_failure(e: &CoreError) -> (res: SendFailure)
    ensures
        res == send_failure_of(*e),
{
    match e {
        CoreError::InvalidState(m) => if holds(m, "Сервер не запущен") {
            SendFailure::ServerNotStarted
        } else {
            SendFailure::Other
        },
        CoreError::Network(m) => if holds(m, "Connection refused") || holds(m, "недоступен") {
            SendFailure::Unreachable
        } else if holds(m, "timeout") || holds(m, "Таймаут") {
            SendFailure::Timeout
        } else {
            SendFailure::OtherNetwork
        },
        _ => SendFailure::Other,
    }
}

/// How many messages a chat shows at most on entering it.
pub const HISTORY_SHOWN: usize = 10;

/// Which of `len` messages a chat shows on entering it: from the returned position to the
/// end, the last ten at most; and how many older ones it leaves out.
pub fn history_window(len: usize) -> (res: (usize, usize))
    ensures
        res.0 == (if len > 10 { len - 10 } else { 0 }),
        res.1 == (if len > 10 { len - 10 } else { 0 }),
{
    if len > HISTORY_SHOWN {
        (len - HISTORY_SHOWN, len - HISTORY_SHOWN)
    } else {
        (0, 0)
    }
}

/// The position of the first contact named exactly `name` among `names`.
pub fn find_named(names: &Vec<String>, name: &str) -> (res: Option<usize>)
    ensures
        res matches Some(i) ==> i < names@.len() && names@[i as int]@ == name@ && forall|j: int| 0 <= j < i
            ==> names@[j]@ != name@,
        res is None ==> forall|j: int| 0 <= j < names@.len() ==> names@[j]@ != name@,
{
    let target = name.to_owned();
    let mut i: usize = 0;
    while i < names.len()
        invariant
            i <= names@.len(),
            target@ == name@,
            forall|j: int| 0 <= j < i ==> names@[j]@ != name@,
        decreases names@.len() - i,
    {
        if names[i] == target {
            return Some(i);
        }
        i = i + 1;
    }
    None
}

} // verus!
