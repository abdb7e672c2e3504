//! The REPL's command bookkeeping: the registry of known commands, prefix
//! completion, and the per-command settling delays.
//!
//! The line editor itself lives outside the crate; it consumes these tables
//! and the completion function through plain values.

use vstd::prelude::*;

use crate::text::{
    lemma_split_text_field_len, lemma_split_text_nonempty, lemma_text_trim_len, split_string,
    split_text, str_eq, str_starts_with, str_trim, text_starts_with, text_trim,
};

verus! {

/// The broad grouping a command belongs to.
#[derive(Clone, Copy, PartialEq, Eq, Structural, Debug)]
pub enum CommandCategory {
    System,
    FlightControl,
    Movement,
    Camera,
    Media,
    Positioning,
}

/// One entry of the command registry.
#[derive(Clone, Copy, Debug)]
pub struct CommandInfo {
    pub name: &'static str,
    pub category: CommandCategory,
    pub description: &'static str,
    /// Delay in milliseconds applied after the command runs.
    pub delay: u64,
}

/// One registry entry has exactly these fields.
pub open spec fn entry_is(
    e: CommandInfo,
    name: Seq<char>,
    category: CommandCategory,
    description: Seq<char>,
    delay: u64,
) -> bool {
    e.name@ == name && e.category == category && e.description@ == description && e.delay == delay
}

/// The full conjunction pinning every entry of the command registry.
pub open spec fn registry_matches(s: Seq<CommandInfo>) -> bool {
    s.len() == 23
        && entry_is(s[0], "help"@, CommandCategory::System, "Show available commands"@, 0)
        && entry_is(s[1], "version"@, CommandCategory::System, "Show application version"@, 0)
        && entry_is(s[2], "info"@, CommandCategory::System, "Show detailed information about application and connected drone"@, 0)
        && entry_is(s[3], "exit"@, CommandCategory::System, "Exit the application"@, 0)
        && entry_is(s[4], "wait"@, CommandCategory::System, "Wait specified number of seconds between commands"@, 0)
        && entry_is(s[5], "takeoff"@, CommandCategory::FlightControl, "Take off (optional height in meters, default 1m, max 8m)"@, 3000)
        && entry_is(s[6], "land"@, CommandCategory::FlightControl, "Land the drone"@, 3000)
        && entry_is(s[7], "state"@, CommandCategory::FlightControl, "Get current drone state/telemetry"@, 100)
        && entry_is(s[8], "forward"@, CommandCategory::Movement, "Move forward by specified distance in cm (1-500)"@, 800)
        && entry_is(s[9], "back"@, CommandCategory::Movement, "Move backward by specified distance in cm (1-500)"@, 800)
        && entry_is(s[10], "left"@, CommandCategory::Movement, "Move left by specified distance in cm (1-500)"@, 800)
        && entry_is(s[11], "right"@, CommandCategory::Movement, "Move right by specified distance in cm (1-500)"@, 800)
        && entry_is(s[12], "up"@, CommandCategory::Movement, "Move up by specified distance in cm (1-500)"@, 800)
        && entry_is(s[13], "down"@, CommandCategory::Movement, "Move down by specified distance in cm (1-500)"@, 800)
        && entry_is(s[14], "rotate_cw"@, CommandCategory::Movement, "Rotate clockwise by specified degrees"@, 1000)
        && entry_is(s[15], "rotate_ccw"@, CommandCategory::Movement, "Rotate counter-clockwise by specified degrees"@, 1000)
        && entry_is(s[16], "photo"@, CommandCategory::Camera, "Take a photo"@, 500)
        && entry_is(s[17], "video"@, CommandCategory::Camera, "Start or stop video recording"@, 500)
        && entry_is(s[18], "media"@, CommandCategory::Media, "Media management commands"@, 200)
        && entry_is(s[19], "position"@, CommandCategory::Positioning, "Set current drone position for camera positioning"@, 100)
        && entry_is(s[20], "get_position"@, CommandCategory::Positioning, "Display current drone position"@, 100)
        && entry_is(s[21], "camera_to_center"@, CommandCategory::Positioning, "Point camera towards the specified center point"@, 1000)
        && entry_is(s[22], "camera_from_center"@, CommandCategory::Positioning, "Point camera away from the specified center point"@, 1000)
}

/// The registry's command names, in order.
pub open spec fn registry_names() -> Seq<Seq<char>> {
    seq!["help"@, "version"@, "info"@, "exit"@, "wait"@, "takeoff"@, "land"@, "state"@, "forward"@, "back"@, "left"@, "right"@, "up"@, "down"@, "rotate_cw"@, "rotate_ccw"@, "photo"@, "video"@, "media"@, "position"@, "get_position"@, "camera_to_center"@, "camera_from_center"@]
}

/// The registry's name/delay pairs, in order.
pub open spec fn registry_delay_pairs() -> Seq<(Seq<char>, u64)> {
    seq![("help"@, 0), ("version"@, 0), ("info"@, 0), ("exit"@, 0), ("wait"@, 0), ("takeoff"@, 3000), ("land"@, 3000), ("state"@, 100), ("forward"@, 800), ("back"@, 800), ("left"@, 800), ("right"@, 800), ("up"@, 800), ("down"@, 800), ("rotate_cw"@, 1000), ("rotate_ccw"@, 1000), ("photo"@, 500), ("video"@, 500), ("media"@, 200), ("position"@, 100), ("get_position"@, 100), ("camera_to_center"@, 1000), ("camera_from_center"@, 1000)]
}

/// The registry entries agree with the name and delay tables.
pub proof fn lemma_registry_names(s: Seq<CommandInfo>, i: int)
    requires
        registry_matches(s),
        0 <= i < 23,
    ensures
        s[i].name@ == registry_names()[i],
        s[i].delay == registry_delay_pairs()[i].1,
        registry_names()[i] == registry_delay_pairs()[i].0,
{
}

/// The command registry: every REPL command with its category, help text,
/// and the settling delay applied after it runs.
pub fn get_commands_registry() -> (r: Vec<CommandInfo>)
    ensures
        registry_matches(r@),
{
    let mut r: Vec<CommandInfo> = Vec::new();
    r.push(
        CommandInfo {
            name: "help",
            category: CommandCategory::System,
            description: "Show available commands",
            delay: 0,
        },
    );
    r.push(
        CommandInfo {
            name: "version",
            category: CommandCategory::System,
            description: "Show application version",
            delay: 0,
        },
    );
    r.push(
        CommandInfo {
            name: "info",
            category: CommandCategory::System,
            description: "Show detailed information about application and connected drone",
            delay: 0,
        },
    );
    r.push(
        CommandInfo {
            name: "exit",
            category: CommandCategory::System,
            description: "Exit the application",
            delay: 0,
        },
    );
    r.push(
        CommandInfo {
            name: "wait",
            category: CommandCategory::System,
            description: "Wait specified number of seconds between commands",
            delay: 0,
        },
    );
    r.push(
        CommandInfo {
            name: "takeoff",
            category: CommandCategory::FlightControl,
            description: "Take off (optional height in meters, default 1m, max 8m)",
            delay: 3000,
        },
    );
    r.push(
        CommandInfo {
            name: "land",
            category: CommandCategory::FlightControl,
            description: "Land the drone",
            delay: 3000,
        },
    );
    r.push(
        CommandInfo {
            name: "state",
            category: CommandCategory::FlightControl,
            description: "Get current drone state/telemetry",
            delay: 100,
        },
    );
    r.push(
        CommandInfo {
            name: "forward",
            category: CommandCategory::Movement,
            description: "Move forward by specified distance in cm (1-500)",
            delay: 800,
        },
    );
    r.push(
        CommandInfo {
            name: "back",
            category: CommandCategory::Movement,
            description: "Move backward by specified distance in cm (1-500)",
            delay: 800,
        },
    );
    r.push(
        CommandInfo {
            name: "left",
            category: CommandCategory::Movement,
            description: "Move left by specified distance in cm (1-500)",
            delay: 800,
        },
    );
    r.push(
        CommandInfo {
            name: "right",
            category: CommandCategory::Movement,
            description: "Move right by specified distance in cm (1-500)",
            delay: 800,
        },
    );
    r.push(
        CommandInfo {
            name: "up",
            category: CommandCategory::Movement,
            description: "Move up by specified distance in cm (1-500)",
            delay: 800,
        },
    );
    r.push(
        CommandInfo {
            name: "down",
            category: CommandCategory::Movement,
            description: "Move down by specified distance in cm (1-500)",
            delay: 800,
        },
    );
    r.push(
        CommandInfo {
            name: "rotate_cw",
            category: CommandCategory::Movement,
            description: "Rotate clockwise by specified degrees",
            delay: 1000,
        },
    );
    r.push(
        CommandInfo {
            name: "rotate_ccw",
            category: CommandCategory::Movement,
            description: "Rotate counter-clockwise by specified degrees",
            delay: 1000,
        },
    );
    r.push(
        CommandInfo {
            name: "photo",
            category: CommandCategory::Camera,
            description: "Take a photo",
            delay: 500,
        },
    );
    r.push(
        CommandInfo {
            name: "video",
            category: CommandCategory::Camera,
            description: "Start or stop video recording",
            delay: 500,
        },
    );
    r.push(
        CommandInfo {
            name: "media",
            category: CommandCategory::Media,
            description: "Media management commands",
            delay: 200,
        },
    );
    r.push(
        CommandInfo {
            name: "position",
            category: CommandCategory::Positioning,
            description: "Set current drone position for camera positioning",
            delay: 100,
        },
    );
    r.push(
        CommandInfo {
            name: "get_position",
            category: CommandCategory::Positioning,
            description: "Display current drone position",
            delay: 100,
        },
    );
    r.push(
        CommandInfo {
            name: "camera_to_center",
            category: CommandCategory::Positioning,
            description: "Point camera towards the specified center point",
            delay: 1000,
        },
    );
    r.push(
        CommandInfo {
            name: "camera_from_center",
            category: CommandCategory::Positioning,
            description: "Point camera away from the specified center point",
            delay: 1000,
        },
    );
    r
}

/// Structure for command auto-completion.
pub struct CommandCompleter {
    commands: Vec<String>,
}

impl CommandCompleter {
    /// The completable command names.
    pub closed spec fn spec_commands(&self) -> Seq<Seq<char>> {
        self.commands@.map_values(|s: String| s@)
    }

    /// A completer over every registry command name.
    pub fn new() -> (c: CommandCompleter)
        ensures
            c.spec_commands() == registry_names(),
    {
        let registry = get_commands_registry();
        let mut commands: Vec<String> = Vec::new();
        let mut i: usize = 0;
        while i < registry.len()
            invariant
                0 <= i <= registry.len(),
                registry_matches(registry@),
                commands@.len() == i,
                forall|k: int|
                    0 <= k < i ==> commands@.map_values(|s: String| s@)[k] == registry_names()[k],
            decreases registry.len() - i,
        {
            proof {
                lemma_registry_names(registry@, i as int);
            }
            commands.push(registry[i].name.to_owned());
            i += 1;
        }
        proof {
            assert(commands@.map_values(|s: String| s@) =~~= registry_names());
        }
        CommandCompleter { commands }
    }

    /// Complete the command being typed at the end of `line`.
    ///
    /// Commands are separated by semicolons; the part after the last
    /// semicolon is trimmed and matched as a prefix.  Returns the character
    /// position where that part starts and the matching command names.
    pub fn complete(&self, line: &str) -> (r: (usize, Vec<String>))
        ensures
            ({
                let current = text_trim(split_text(line@, ';').last());
                r.0 == line@.len() - current.len() && r.1@.map_values(|s: String| s@)
                    == self.spec_commands().filter(|c: Seq<char>| text_starts_with(c, current))
            }),
    {
        let parts = split_string(line, ';');
        proof {
            lemma_split_text_nonempty(line@, ';');
            lemma_split_text_field_len(line@, ';', split_text(line@, ';').len() - 1);
            lemma_text_trim_len(split_text(line@, ';').last());
        }
        let last_index = parts.len() - 1;
        let current = str_trim(parts[last_index].as_str());
        let start = line.unicode_len() - current.unicode_len();
        let ghost cur = text_trim(split_text(line@, ';').last());
        let ghost pred = |c: Seq<char>| text_starts_with(c, cur);
        let mut found: Vec<String> = Vec::new();
        proof {
            reveal(Seq::filter);
            assert(self.spec_commands().subrange(0, 0) =~~= Seq::<Seq<char>>::empty());
            assert(found@.map_values(|s: String| s@) =~~= Seq::<Seq<char>>::empty().filter(pred));
        }
        let mut i: usize = 0;
        while i < self.commands.len()
            invariant
                0 <= i <= self.commands.len(),
                cur == text_trim(split_text(line@, ';').last()),
                cur == current@,
                pred == (|c: Seq<char>| text_starts_with(c, cur)),
                self.commands@.len() == self.spec_commands().len(),
                found@.map_values(|s: String| s@) == self.spec_commands().subrange(
                    0,
                    i as int,
                ).filter(pred),
            decreases self.commands.len() - i,
        {
            proof {
                reveal(Seq::filter);
                let prefix = self.spec_commands().subrange(0, i as int);
                let next = self.spec_commands().subrange(0, i + 1);
                assert(next.drop_last() =~~= prefix);
                assert(next.last() == self.spec_commands()[i as int]);
            }
            if str_starts_with(self.commands[i].as_str(), current) {
                found.push(self.commands[i].clone());
                proof {
                    let m = found@.map_values(|s: String| s@);
                    assert(m =~~= m.subrange(0, m.len() - 1).push(self.spec_commands()[i as int]));
                }
            }
            i += 1;
        }
        proof {
            assert(self.spec_commands().subrange(0, self.spec_commands().len() as int) =~~= self
                .spec_commands());
        }
        (start, found)
    }
}

/// The helper bundling the pieces a line editor needs.
pub struct CommandHelper {
    completer: CommandCompleter,
}

impl CommandHelper {
    /// The completable command names.
    pub closed spec fn spec_commands(&self) -> Seq<Seq<char>> {
        self.completer.spec_commands()
    }

    /// A helper with a completer over every registry command.
    pub fn new() -> (h: CommandHelper)
        ensures
            h.spec_commands() == registry_names(),
    {
        CommandHelper { completer: CommandCompleter::new() }
    }

    /// The inner completer.
    pub fn completer(&self) -> (c: &CommandCompleter)
        ensures
            c.spec_commands() == self.spec_commands(),
    {
        &self.completer
    }
}

/// The delay to apply after a command when no entry names it.
pub open spec fn spec_lookup_delay(pairs: Seq<(Seq<char>, u64)>, cmd: Seq<char>) -> u64
    decreases pairs.len(),
{
    if pairs.len() == 0 {
        500
    } else if pairs[0].0 == cmd {
        pairs[0].1
    } else {
        spec_lookup_delay(pairs.drop_first(), cmd)
    }
}

/// Structure for managing command-specific delays.
pub struct CommandDelay {
    delays: Vec<(&'static str, u64)>,
}

impl CommandDelay {
    /// The name/delay table.
    pub closed spec fn spec_delays(&self) -> Seq<(Seq<char>, u64)> {
        self.delays@.map_values(|p: (&'static str, u64)| (p.0@, p.1))
    }

    /// A delay table over every registry command.
    pub fn new() -> (c: CommandDelay)
        ensures
            c.spec_delays() == registry_delay_pairs(),
    {
        let registry = get_commands_registry();
        let mut delays: Vec<(&'static str, u64)> = Vec::new();
        let mut i: usize = 0;
        while i < registry.len()
            invariant
                0 <= i <= registry.len(),
                registry_matches(registry@),
                delays@.len() == i,
                forall|k: int|
                    0 <= k < i ==> delays@.map_values(|p: (&'static str, u64)| (p.0@, p.1))[k]
                        == registry_delay_pairs()[k],
            decreases registry.len() - i,
        {
            proof {
                lemma_registry_names(registry@, i as int);
            }
            delays.push((registry[i].name, registry[i].delay));
            i += 1;
        }
        proof {
            assert(delays@.map_values(|p: (&'static str, u64)| (p.0@, p.1))
                =~~= registry_delay_pairs());
        }
        CommandDelay { delays }
    }

    /// The delay for `command`: its table entry, or 500 ms by default.
    pub fn get_delay(&self, command: &str) -> (r: u64)
        ensures
            r == spec_lookup_delay(self.spec_delays(), command@),
    {
        proof {
            assert(self.spec_delays().subrange(0, self.spec_delays().len() as int) =~~= self
                .spec_delays());
        }
        let mut i: usize = 0;
        while i < self.delays.len()
            invariant
                0 <= i <= self.delays.len(),
                self.delays@.len() == self.spec_delays().len(),
                spec_lookup_delay(self.spec_delays(), command@) == spec_lookup_delay(
                    self.spec_delays().subrange(i as int, self.spec_delays().len() as int),
                    command@,
                ),
            decreases self.delays.len() - i,
        {
            let entry = self.delays[i];
            proof {
                let tail = self.spec_delays().subrange(i as int, self.spec_delays().len() as int);
                assert(tail[0] == self.spec_delays()[i as int]);
                assert(tail.drop_first() =~~= self.spec_delays().subrange(
                    i + 1,
                    self.spec_delays().len() as int,
                ));
            }
            if str_eq(entry.0, command) {
                return entry.1;
            }
            i += 1;
        }
        proof {
            assert(self.spec_delays().subrange(
                self.spec_delays().len() as int,
                self.spec_delays().len() as int,
            ) =~~= Seq::<(Seq<char>, u64)>::empty());
        }
        500
    }
}

} // verus!
