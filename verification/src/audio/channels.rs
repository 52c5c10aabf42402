//! The channels that exist and the commands that wait for the next frame.

use std::collections::VecDeque;
use vstd::prelude::*;

use crate::audio::types::{AudioCommand, ChannelId};

verus! {

/// Audio channels, commands and gradual changes on the players of the host.
#[derive(Clone, Copy, Debug, PartialEq, Eq, Structural)]
pub struct GodotAudioPlugin;

impl Default for GodotAudioPlugin {
    fn default() -> (r: GodotAudioPlugin)
        ensures
            r == GodotAudioPlugin,
    {
        GodotAudioPlugin
    }
}

/// The channels that exist, and the commands of all of them in the order in which they came.
#[derive(Debug)]
pub struct GodotAudioChannels {
    pub channels: Vec<ChannelId>,
    pub command_queue: VecDeque<AudioCommand>,
}

/// The names of the channels.
pub open spec fn channel_names(channels: Seq<ChannelId>) -> Seq<Seq<char>> {
    channels.map_values(|c: ChannelId| c@)
}

impl GodotAudioChannels {
    /// No channel is listed twice.
    pub open spec fn wf(self) -> bool {
        channel_names(self.channels@).no_duplicates()
    }
}

impl Default for GodotAudioChannels {
    /// No channel, no command.
    fn default() -> (r: GodotAudioChannels)
        ensures
            r.wf(),
            r.channels@ == Seq::<ChannelId>::empty(),
            r.command_queue@ == Seq::<AudioCommand>::empty(),
    {
        GodotAudioChannels { channels: Vec::new(), command_queue: VecDeque::new() }
    }
}

impl GodotAudioChannels {
    /// How many commands wait, and how many channels there are.
    pub fn stats(&self) -> (r: (usize, usize))
        requires
            self.wf(),
        ensures
            r.0 == self.command_queue@.len(),
            r.1 == channel_names(self.channels@).to_set().len(),
    {
        proof {
            channel_names(self.channels@).unique_seq_to_set();
        }
        (self.command_queue.len(), self.channels.len())
    }

    /// Whether a channel exists.
    pub fn has_channel(&self, channel_id: ChannelId) -> (r: bool)
        ensures
            r == channel_names(self.channels@).contains(channel_id@),
    {
        let ghost names = channel_names(self.channels@);
        for i in 0..self.channels.len()
            invariant
                names == channel_names(self.channels@),
                forall|k: int| 0 <= k < i ==> (#[trigger] names[k]) != channel_id@,
        {
            if self.channels[i].same(&channel_id) {
                assert(names[i as int] == channel_id@);
                return true;
            }
            assert(names[i as int] != channel_id@);
        }
        false
    }
}

/// What channels can be added to.
pub trait AudioApp: Sized {
    /// Whether the parts fit together.
    spec fn channels_wf(&self) -> bool;

    /// The names of the channels.
    spec fn channel_set(&self) -> Set<Seq<char>>;

    /// Add a channel, and hand back what it was added to. A channel that exists already stays.
    fn add_audio_channel(&mut self, channel_id: ChannelId) -> (r: &mut Self)
        requires
            old(self).channels_wf(),
        ensures
            r.channels_wf(),
            r.channel_set() == old(self).channel_set().insert(channel_id@),
            *final(r) == *final(self),
    ;
}

impl AudioApp for GodotAudioChannels {
    open spec fn channels_wf(&self) -> bool {
        self.wf()
    }

    open spec fn channel_set(&self) -> Set<Seq<char>> {
        channel_names(self.channels@).to_set()
    }

    fn add_audio_channel(&mut self, channel_id: ChannelId) -> (r: &mut GodotAudioChannels)
        ensures
            r.command_queue@ == old(self).command_queue@,
    {
        let ghost before = channel_names(self.channels@);
        let ghost added = before.to_set().insert(channel_id@);
        if self.has_channel(channel_id) {
            assert(before.to_set() =~= added);
        } else {
            self.channels.push(channel_id);
            proof {
                let after = channel_names(self.channels@);
                assert(after =~= before.push(channel_id@));
                assert forall|name: Seq<char>| after.to_set().contains(name) <==> added.contains(
                    name,
                ) by {
                    vstd::seq_lib::lemma_seq_contains_after_push(before, channel_id@, name);
                }
                assert(after.to_set() =~= added);
            }
        }
        self
    }
}

/// Take the commands of one channel over into the common queue, in their order, behind those that
/// wait there.
pub fn process_channel_commands(
    commands: &mut VecDeque<AudioCommand>,
    audio_channels: &mut GodotAudioChannels,
)
    ensures
        final(commands)@ == Seq::<AudioCommand>::empty(),
        final(audio_channels).command_queue@ == old(audio_channels).command_queue@ + old(
            commands,
        )@,
        final(audio_channels).channels@ == old(audio_channels).channels@,
{
    let ghost waiting = commands@;
    let ghost queued = audio_channels.command_queue@;
    let ghost listed = audio_channels.channels@;
    let ghost mut moved: int = 0;
    while commands.len() > 0
        invariant
            0 <= moved <= waiting.len(),
            commands@ == waiting.skip(moved),
            audio_channels.command_queue@ == queued + waiting.take(moved),
            audio_channels.channels@ == listed,
        decreases commands@.len(),
    {
        if let Some(command) = commands.pop_front() {
            audio_channels.command_queue.push_back(command);
        }
        proof {
            assert(waiting.skip(moved)[0] == waiting[moved]);
            assert(waiting.take(moved + 1) =~= waiting.take(moved).push(waiting[moved]));
            assert(commands@ =~= waiting.skip(moved + 1));
            moved = moved + 1;
        }
    }
    assert(waiting.take(moved) =~= waiting);
}

/// A channel goes by its name, and the channels that exist are those that are listed.
pub proof fn law_channels_go_by_their_names(channels: GodotAudioChannels, name: Seq<char>, i: int)
    ensures
        channel_names(channels.channels@).len() == channels.channels@.len(),
        0 <= i < channels.channels@.len() ==> channel_names(channels.channels@)[i]
            == channels.channels@[i].0@,
        channels.channel_set().contains(name) <==> exists|k: int|
            0 <= k < channels.channels@.len() && (#[trigger] channels.channels@[k]).0@ == name,
{
    let names = channel_names(channels.channels@);
    if channels.channel_set().contains(name) {
        let k = choose|k: int| 0 <= k < names.len() && names[k] == name;
        assert(channels.channels@[k].0@ == name);
    }
    if exists|k: int|
        0 <= k < channels.channels@.len() && (#[trigger] channels.channels@[k]).0@ == name {
        let k = choose|k: int|
            0 <= k < channels.channels@.len() && (#[trigger] channels.channels@[k]).0@ == name;
        assert(names[k] == name);
    }
}

} // verus!
