//! The run's configuration, read from the command line.

use vstd::prelude::*;
use vstd::std_specs::iter::IteratorSpec;
use crate::projection::Mode;
use crate::text::optional_view;

verus! {

/// What a run does, with the name of the file it reads.
#[derive(Debug, PartialEq, Eq)]
pub enum Task {
    /// Flatten each record into one metadata row.
    Format(String),
    /// List the authors of each work.
    Assign(String),
}

/// A task with its file name as a sequence of characters.
pub enum TaskModel {
    Format(Seq<char>),
    Assign(Seq<char>),
}

impl View for Task {
    type V = TaskModel;

    open spec fn view(&self) -> TaskModel {
        match self {
            Task::Format(filename) => TaskModel::Format(filename@),
            Task::Assign(filename) => TaskModel::Assign(filename@),
        }
    }
}

impl Task {
    /// The name of the file that the task reads.
    pub fn filename(&self) -> (filename: &String)
        ensures
            filename@ == match self@ {
                TaskModel::Format(name) => name,
                TaskModel::Assign(name) => name,
            },
    {
        match self {
            Task::Format(filename) => filename,
            Task::Assign(filename) => filename,
        }
    }

    /// The projection that the task applies.
    pub fn mode(&self) -> (mode: Mode)
        ensures
            mode == match self@ {
                TaskModel::Format(_) => Mode::Format,
                TaskModel::Assign(_) => Mode::Assign,
            },
    {
        match self {
            Task::Format(_) => Mode::Format,
            Task::Assign(_) => Mode::Assign,
        }
    }
}

/// The configuration of one run.
#[derive(Debug, PartialEq, Eq)]
pub struct Config {
    pub task: Task,
}

impl View for Config {
    type V = TaskModel;

    open spec fn view(&self) -> TaskModel {
        self.task@
    }
}

/// The task that a command and a file name ask for, or the message that
/// says what is wrong with them. The command is `assign` or `format`; it is
/// looked at before the file name.
pub open spec fn selected(command: Option<Seq<char>>, filename: Option<Seq<char>>) -> Result<
    TaskModel,
    Seq<char>,
> {
    match command {
        None => Err("no operator specified"@),
        Some(operator) => if operator == "assign"@ {
            match filename {
                Some(name) => Ok(TaskModel::Assign(name)),
                None => Err("no filename supplied"@),
            }
        } else if operator == "format"@ {
            match filename {
                Some(name) => Ok(TaskModel::Format(name)),
                None => Err("no filename supplied"@),
            }
        } else {
            Err("unrecognized operation"@)
        },
    }
}

/// The argument at `index`, where there is one.
pub open spec fn argument(argv: Seq<Seq<char>>, index: int) -> Option<Seq<char>> {
    if 0 <= index < argv.len() {
        Some(argv[index])
    } else {
        None
    }
}

/// The task that the arguments `argv` ask for, or the message that says
/// what is wrong with them. `argv[0]` is the program's own name, `argv[1]`
/// the command and `argv[2]` the file name; further arguments are ignored.
pub open spec fn parsed_arguments(argv: Seq<Seq<char>>) -> Result<TaskModel, Seq<char>> {
    selected(argument(argv, 1), argument(argv, 2))
}

/// The arguments of `items` as sequences of characters.
pub open spec fn argument_texts(items: Seq<String>) -> Seq<Seq<char>> {
    items.map_values(|s: String| s@)
}

/// Whether `built` is what the model `expected` asks for: a configuration
/// with the expected task, or the expected message.
pub open spec fn builds_as(
    built: Result<Config, &'static str>,
    expected: Result<TaskModel, Seq<char>>,
) -> bool {
    match built {
        Ok(config) => expected == Ok::<TaskModel, Seq<char>>(config@),
        Err(message) => expected == Err::<TaskModel, Seq<char>>(message@),
    }
}

impl Config {
    /// The configuration that a command and a file name ask for. A missing
    /// command, a command that is neither `assign` nor `format`, and a
    /// missing file name are refused, in this order.
    pub fn from_arguments(command: Option<String>, filename: Option<String>) -> (built: Result<
        Self,
        &'static str,
    >)
        ensures
            builds_as(built, selected(optional_view(command), optional_view(filename))),
    {
        match command {
            None => Err("no operator specified"),
            Some(operator) => {
                if operator.as_str().eq("assign") {
                    match filename {
                        Some(name) => Ok(Config { task: Task::Assign(name) }),
                        None => Err("no filename supplied"),
                    }
                } else if operator.as_str().eq("format") {
                    match filename {
                        Some(name) => Ok(Config { task: Task::Format(name) }),
                        None => Err("no filename supplied"),
                    }
                } else {
                    Err("unrecognized operation")
                }
            },
        }
    }

    /// Reads the configuration from the program's arguments, the program's
    /// own name first. At most three arguments are taken from `args`.
    ///
    /// The result is stated for an iterator that hands out a fixed sequence
    /// of items and then ends, as the iterators of the standard library do.
    pub fn build(mut args: impl Iterator<Item = String>) -> (built: Result<Self, &'static str>)
        ensures
            args.obeys_prophetic_iter_laws() ==> builds_as(
                built,
                parsed_arguments(argument_texts(args.remaining())),
            ),
    {
        args.next();
        let command = args.next();
        let filename = match command {
            Some(_) => args.next(),
            None => None,
        };
        Config::from_arguments(command, filename)
    }
}

} // verus!
