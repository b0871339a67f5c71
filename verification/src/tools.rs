//! The tool registry: the read-only queries that the model may ask for, each
//! with the descriptor that is shown to the provider, the `git` command that
//! answers it, and the reading of that command's output.

use crate::failure::{Failure, FailureView};
use crate::git::{
    output_text, push_arg, query, read_output, text_result, CommandOutput, GitCommand,
    GitCommandView, GitInput,
};
use crate::json::{decode_object, json_object, members_view};
use crate::text::append_str;
use vstd::prelude::*;

verus! {

/// The name of the tool that reads a file.
pub const READ_FILE: &'static str = "read_file";

/// The name of the tool that lists all files.
pub const LIST_ALL_FILES: &'static str = "list_all_files";

/// The name of the only parameter of `read_file`.
pub const PATH: &'static str = "path";

/// The descriptor of `read_file`, as the provider sees it.
pub const READ_FILE_SCHEMA: &'static str =
    "\n        {\n            \"type\": \"function\",\n            \"function\": {\n                \"name\": \"read_file\",\n                \"description\": \"Get the content of a file stored in the repository.\",\n                \"parameters\": {\n                    \"type\": \"object\",\n                    \"properties\": {\n                        \"path\": {\n                            \"type\": \"string\",\n                            \"description\": \"path of the file under the repository, e.g. src/main.rs\"\n                        }\n                    },\n                    \"required\": [\n                        \"path\"\n                    ],\n                    \"additionalProperties\": false\n                }\n            }\n        }\n";

/// The descriptor of `list_all_files`, as the provider sees it.
pub const LIST_ALL_FILES_SCHEMA: &'static str =
    "\n        {\n            \"type\": \"function\",\n            \"function\": {\n                \"name\": \"list_all_files\",\n                \"description\": \"Get the list of all the files in the repository.\",\n                \"parameters\": {\n                    \"type\": \"object\",\n                    \"properties\": {\n                    },\n                    \"required\": [\n                    ],\n                    \"additionalProperties\": false\n                }\n            }\n        }\n";

/// What a tool does when it is called.
#[derive(Clone, Copy, Debug, PartialEq, Eq, Structural)]
pub enum ToolCallback {
    /// Gives the content of a file as the head revision holds it.
    ReadFile,
    /// Gives the paths of all tracked files, one on each line.
    ListAllFiles,
}

/// What is registered under a tool's name: what the tool does, and its
/// descriptor.
#[derive(Clone, Debug, PartialEq, Eq)]
pub struct ToolItem {
    pub callback: ToolCallback,
    pub schema: String,
}

/// A registered tool, with its texts as character sequences.
pub struct ToolView {
    pub name: Seq<char>,
    pub callback: ToolCallback,
    pub schema: Seq<char>,
}

/// The registered tools, each under its name. No name occurs twice, and the
/// tools keep the order in which their names were first registered.
#[derive(Clone, Debug, PartialEq, Eq)]
pub struct ToolsCollection {
    names: Vec<String>,
    items: Vec<ToolItem>,
}

/// Where `name` stands among `tools`, if it does.
pub open spec fn position(tools: Seq<ToolView>, name: Seq<char>) -> Option<int> {
    if exists|i: int| 0 <= i < tools.len() && (#[trigger] tools[i]).name == name {
        Some(choose|i: int| 0 <= i < tools.len() && (#[trigger] tools[i]).name == name)
    } else {
        None
    }
}

/// The tool that is registered under `name`, if there is one.
pub open spec fn lookup(tools: Seq<ToolView>, name: Seq<char>) -> Option<ToolView> {
    match position(tools, name) {
        Some(i) => Some(tools[i]),
        None => None,
    }
}

/// Whether no name occurs twice.
pub open spec fn distinct_names(tools: Seq<ToolView>) -> bool {
    forall|i: int, j: int|
        0 <= i < tools.len() && 0 <= j < tools.len() && (#[trigger] tools[i]).name == (
        #[trigger] tools[j]).name ==> i == j
}

/// The tools after `tool` was registered: it takes the place of the tool of
/// the same name, or the last place where there is none.
pub open spec fn registered(tools: Seq<ToolView>, tool: ToolView) -> Seq<ToolView> {
    match position(tools, tool.name) {
        Some(i) => tools.update(i, tool),
        None => tools.push(tool),
    }
}

/// The descriptors of the tools, in their order.
pub open spec fn schemas_of(tools: Seq<ToolView>) -> Seq<Seq<char>> {
    tools.map_values(|tool: ToolView| tool.schema)
}

/// The two tools that every conversation offers.
pub open spec fn standard_tools() -> Seq<ToolView> {
    seq![
        ToolView { name: READ_FILE@, callback: ToolCallback::ReadFile, schema: READ_FILE_SCHEMA@ },
        ToolView {
            name: LIST_ALL_FILES@,
            callback: ToolCallback::ListAllFiles,
            schema: LIST_ALL_FILES_SCHEMA@,
        },
    ]
}

/// The value of the member `key`, if the members hold it and its value is a
/// string.
pub open spec fn text_member(
    members: Seq<(Seq<char>, Option<Seq<char>>)>,
    key: Seq<char>,
) -> Option<Seq<char>>
    decreases members.len(),
{
    if members.len() == 0 {
        None
    } else if members.first().0 == key {
        members.first().1
    } else {
        text_member(members.drop_first(), key)
    }
}

/// The path that the arguments of a `read_file` call name: the arguments
/// must be a JSON object with a member `path` whose value is a string.
pub open spec fn path_argument(arguments: Seq<char>) -> Option<Seq<char>> {
    match json_object(arguments) {
        Some(members) => text_member(members, PATH@),
        None => None,
    }
}

/// `git ls-files`: the paths of all tracked files.
pub open spec fn list_files_args() -> Seq<Seq<char>> {
    seq!["ls-files"@]
}

/// `git show HEAD:<path>`: the content of a file as the head revision holds
/// it.
pub open spec fn show_args(path: Seq<char>) -> Seq<Seq<char>> {
    seq!["show"@, "HEAD:"@ + path]
}

/// The command that answers a call of a tool, or why there is none: a call
/// of `read_file` whose arguments name no path is refused.
pub open spec fn tool_command(callback: ToolCallback, arguments: Seq<char>) -> Result<
    GitCommandView,
    FailureView,
> {
    match callback {
        ToolCallback::ListAllFiles => Ok(query(list_files_args())),
        ToolCallback::ReadFile => match path_argument(arguments) {
            Some(path) => Ok(query(show_args(path))),
            None => Err(FailureView::ToolInvalidArgument { tool: READ_FILE@ }),
        },
    }
}

impl ToolsCollection {
    /// The registered tools, in their order.
    pub closed spec fn view(&self) -> Seq<ToolView> {
        Seq::new(
            self.names@.len(),
            |i: int|
                ToolView {
                    name: self.names@[i]@,
                    callback: self.items@[i].callback,
                    schema: self.items@[i].schema@,
                },
        )
    }

    /// Whether the collection is as it must be: no name occurs twice.
    pub closed spec fn well_formed(&self) -> bool {
        &&& self.names@.len() == self.items@.len()
        &&& distinct_names(self@)
    }

    /// In a collection that is as it must be, no name occurs twice.
    pub proof fn lemma_names_are_distinct(&self)
        requires
            self.well_formed(),
        ensures
            distinct_names(self@),
    {
    }

    /// A collection without tools.
    pub fn new() -> (tools: ToolsCollection)
        ensures
            tools.well_formed(),
            tools@ == Seq::<ToolView>::empty(),
    {
        let tools = ToolsCollection { names: Vec::new(), items: Vec::new() };
        assert(tools@ =~= Seq::<ToolView>::empty());
        tools
    }

    /// The number of tools.
    pub fn len(&self) -> (n: usize)
        requires
            self.well_formed(),
        ensures
            n == self@.len(),
    {
        self.names.len()
    }

    /// Where `name` stands, if it does.
    fn find(&self, name: &str) -> (found: Option<usize>)
        requires
            self.well_formed(),
        ensures
            match found {
                Some(i) => i < self@.len() && self@[i as int].name == name@ && position(
                    self@,
                    name@,
                ) == Some(i as int),
                None => position(self@, name@) is None,
            },
    {
        let wanted = name.to_owned();
        let mut i: usize = 0;
        while i < self.names.len()
            invariant
                i <= self.names.len(),
                self.well_formed(),
                wanted@ == name@,
                forall|k: int| 0 <= k < i ==> (#[trigger] self@[k]).name != name@,
            decreases self.names.len() - i,
        {
            if self.names[i] == wanted {
                assert(self@[i as int].name == name@);
                return Some(i);
            }
            i = i + 1;
        }
        None
    }

    /// Registers a tool under `name`. A tool that was registered under that
    /// name before is replaced.
    pub fn insert(&mut self, name: String, item: ToolItem)
        requires
            old(self).well_formed(),
        ensures
            final(self).well_formed(),
            final(self)@ == registered(
                old(self)@,
                ToolView { name: name@, callback: item.callback, schema: item.schema@ },
            ),
    {
        let ghost tool = ToolView { name: name@, callback: item.callback, schema: item.schema@ };
        let ghost before = self@;
        match self.find(name.as_str()) {
            Some(i) => {
                self.items.set(i, item);
                assert(self@ =~= before.update(i as int, tool));
                assert(distinct_names(self@)) by {
                    assert forall|a: int, b: int|
                        0 <= a < self@.len() && 0 <= b < self@.len() && (#[trigger] self@[a]).name
                            == (#[trigger] self@[b]).name implies a == b by {
                        assert(before[a].name == self@[a].name);
                        assert(before[b].name == self@[b].name);
                    }
                }
            },
            None => {
                self.names.push(name);
                self.items.push(item);
                assert(self@ =~= before.push(tool));
                assert(distinct_names(self@)) by {
                    assert forall|a: int, b: int|
                        0 <= a < self@.len() && 0 <= b < self@.len() && (#[trigger] self@[a]).name
                            == (#[trigger] self@[b]).name implies a == b by {
                        if a < before.len() {
                            assert(before[a].name == self@[a].name);
                        }
                        if b < before.len() {
                            assert(before[b].name == self@[b].name);
                        }
                    }
                }
            },
        }
    }

    /// What the tool that is registered under `name` does, if there is one.
    pub fn get(&self, name: &str) -> (found: Option<ToolCallback>)
        requires
            self.well_formed(),
        ensures
            match found {
                Some(callback) => lookup(self@, name@) matches Some(tool) && tool.callback
                    == callback,
                None => lookup(self@, name@) is None,
            },
    {
        match self.find(name) {
            Some(i) => Some(self.items[i].callback),
            None => None,
        }
    }

    /// The descriptors of the tools, in their order.
    pub fn schemas(&self) -> (list: Vec<String>)
        requires
            self.well_formed(),
        ensures
            list.deep_view() == schemas_of(self@),
    {
        let mut list: Vec<String> = Vec::new();
        let mut i: usize = 0;
        while i < self.items.len()
            invariant
                i <= self.items.len(),
                self.well_formed(),
                list.len() == i,
                forall|k: int| 0 <= k < i ==> list@[k]@ == self@[k].schema,
            decreases self.items.len() - i,
        {
            list.push(self.items[i].schema.clone());
            i = i + 1;
        }
        assert(list.deep_view() =~= schemas_of(self@));
        list
    }
}

/// A name stands at one place at most: the name of a registered tool leads
/// to that tool.
pub proof fn lemma_lookup_finds(tools: Seq<ToolView>, i: int)
    requires
        distinct_names(tools),
        0 <= i < tools.len(),
    ensures
        lookup(tools, tools[i].name) == Some(tools[i]),
{
    let name = tools[i].name;
    assert(position(tools, name) is Some);
}

/// After a tool was registered, its name leads to it, and every other name
/// leads where it led before.
pub proof fn lemma_registered_lookup(tools: Seq<ToolView>, tool: ToolView, name: Seq<char>)
    requires
        distinct_names(tools),
    ensures
        distinct_names(registered(tools, tool)),
        lookup(registered(tools, tool), tool.name) == Some(tool),
        name != tool.name ==> lookup(registered(tools, tool), name) == lookup(tools, name),
{
    let after = registered(tools, tool);
    let at: int = match position(tools, tool.name) {
        Some(i) => i,
        None => tools.len() as int,
    };
    assert(after.len() > at >= 0);
    assert(after[at] == tool);
    assert forall|k: int| 0 <= k < after.len() && k != at implies (#[trigger] after[k]) == tools[k]
        && tools[k].name != tool.name by {
        if position(tools, tool.name) is Some {
            assert(tools[at].name == tool.name);
        }
    }
    assert forall|a: int, b: int|
        0 <= a < after.len() && 0 <= b < after.len() && (#[trigger] after[a]).name == (
        #[trigger] after[b]).name implies a == b by {
        if a != at && b != at {
            assert(tools[a].name == tools[b].name);
        }
    }
    assert(position(after, tool.name) is Some);
    let found = position(after, tool.name)->0;
    assert(found == at);
    if name != tool.name {
        if position(tools, name) is Some {
            let p = position(tools, name)->0;
            assert(p != at);
            assert(after[p].name == name);
            assert(position(after, name) is Some);
            let q = position(after, name)->0;
            assert(q != at);
            assert(tools[q].name == tools[p].name);
        } else {
            if position(after, name) is Some {
                let q = position(after, name)->0;
                assert(q != at);
                assert(tools[q].name == name);
            }
        }
    }
}

/// Registers a tool under `name`.
pub fn append_tool(tools: &mut ToolsCollection, name: String, callback: ToolCallback, schema: String)
    requires
        old(tools).well_formed(),
    ensures
        final(tools).well_formed(),
        final(tools)@ == registered(old(tools)@, ToolView { name: name@, callback, schema: schema@ }),
{
    let item = ToolItem { callback, schema };
    tools.insert(name, item);
}

/// The collection of the two tools that every conversation offers:
/// `read_file` and `list_all_files`.
pub fn initialize_tools() -> (tools: ToolsCollection)
    ensures
        tools.well_formed(),
        tools@ == standard_tools(),
{
    let mut tools = ToolsCollection::new();
    append_tool(
        &mut tools,
        READ_FILE.to_owned(),
        ToolCallback::ReadFile,
        READ_FILE_SCHEMA.to_owned(),
    );
    proof {
        assert(position(Seq::<ToolView>::empty(), READ_FILE@) is None);
    }
    let ghost first = tools@;
    append_tool(
        &mut tools,
        LIST_ALL_FILES.to_owned(),
        ToolCallback::ListAllFiles,
        LIST_ALL_FILES_SCHEMA.to_owned(),
    );
    proof {
        reveal_strlit("read_file");
        reveal_strlit("list_all_files");
        assert(READ_FILE@.len() != LIST_ALL_FILES@.len());
        assert(first.len() == 1);
        assert(position(first, LIST_ALL_FILES@) is None);
        assert(tools@ =~= standard_tools());
    }
    tools
}

/// The value of the member `key`, if the members hold it as a string.
pub fn find_text_member(members: &Vec<(String, Option<String>)>, key: &str) -> (found: Option<
    String,
>)
    ensures
        found.deep_view() == text_member(members_view(members@), key@),
{
    let wanted = key.to_owned();
    let ghost all = members_view(members@);
    let mut i: usize = 0;
    assert(all.skip(0) == all);
    while i < members.len()
        invariant
            i <= members.len(),
            all == members_view(members@),
            wanted@ == key@,
            text_member(all, key@) == text_member(all.skip(i as int), key@),
        decreases members.len() - i,
    {
        proof {
            assert(all.skip(i as int).first() == all[i as int]);
            assert(all.skip(i as int).drop_first() == all.skip(i + 1));
        }
        if members[i].0 == wanted {
            let found = match &members[i].1 {
                Some(text) => Some(text.clone()),
                None => None,
            };
            return found;
        }
        i = i + 1;
    }
    None
}

/// The command that lists all tracked files.
pub fn list_all_files_command() -> (command: GitCommand)
    ensures
        command@ == query(list_files_args()),
{
    let mut args: Vec<String> = Vec::new();
    assert(args.deep_view() == Seq::<Seq<char>>::empty());
    push_arg(&mut args, "ls-files");
    assert(args.deep_view() == list_files_args());
    GitCommand { args, input: GitInput::Nothing }
}

/// The command that shows the file `path` as the head revision holds it.
pub fn show_command(path: &str) -> (command: GitCommand)
    ensures
        command@ == query(show_args(path@)),
{
    let mut args: Vec<String> = Vec::new();
    assert(args.deep_view() == Seq::<Seq<char>>::empty());
    push_arg(&mut args, "show");
    let object = append_str("HEAD:", path);
    push_arg(&mut args, object.as_str());
    assert(args.deep_view() == show_args(path@));
    GitCommand { args, input: GitInput::Nothing }
}

/// The command that answers a call of `read_file` with the given arguments.
pub fn read_file_command(arguments: &str) -> (r: Result<GitCommand, Failure>)
    ensures
        match r {
            Ok(command) => tool_command(ToolCallback::ReadFile, arguments@) == Ok::<
                GitCommandView,
                FailureView,
            >(command@),
            Err(e) => tool_command(ToolCallback::ReadFile, arguments@) == Err::<
                GitCommandView,
                FailureView,
            >(e@),
        },
{
    let path = match decode_object(arguments) {
        Ok(members) => find_text_member(&members, PATH),
        Err(_) => None,
    };
    match path {
        Some(path) => Ok(show_command(path.as_str())),
        None => Err(Failure::ToolInvalidArgument { tool: READ_FILE.to_owned() }),
    }
}

/// The command that answers a call of a tool with the given arguments.
pub fn command_for(callback: ToolCallback, arguments: &str) -> (r: Result<GitCommand, Failure>)
    ensures
        match r {
            Ok(command) => tool_command(callback, arguments@) == Ok::<GitCommandView, FailureView>(
                command@,
            ),
            Err(e) => tool_command(callback, arguments@) == Err::<GitCommandView, FailureView>(e@),
        },
{
    match callback {
        ToolCallback::ListAllFiles => Ok(list_all_files_command()),
        ToolCallback::ReadFile => read_file_command(arguments),
    }
}

/// The list of all tracked files, as `git ls-files` gave it.
pub fn tool_list_all_files(output: CommandOutput) -> (r: Result<String, Failure>)
    ensures
        text_result(r) == output_text(output@),
{
    read_output(output)
}

/// The content of a file, as `git show` gave it. Where the head revision
/// holds no such file, the command has failed, and so does the tool.
pub fn tool_read_file(output: CommandOutput) -> (r: Result<String, Failure>)
    ensures
        text_result(r) == output_text(output@),
{
    read_output(output)
}

} // verus!
