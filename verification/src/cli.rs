//! The command-line surface: which operation to run and with which
//! arguments, plus the small rules the commands share — the default
//! monitor buffer length and the shaping of the output file name.
//!
//! Argument parsing itself is a collaborator outside this crate; these
//! types carry its result.

use vstd::prelude::*;

verus! {

/// The parsed command line: one command, an optional device index, and
/// whether the JACK host was asked for.
#[derive(Clone, Debug)]
pub struct Cli {
    pub command: Commands,
    pub device: Option<u8>,
    pub jack: bool,
}

/// The operations the utility offers.
#[derive(Clone, Debug)]
pub enum Commands {
    /// Record an audio file.
    Rec(RecArgs),
    /// Play an audio file.
    Play(PlayArgs),
    /// Monitor audio input with scopes.
    Monitor(MonitorArgs),
    /// List available audio devices.
    List,
}

/// Arguments of the record command.
#[derive(Clone, Debug)]
pub struct RecArgs {
    /// Path for the output audio file.
    pub output: Option<String>,
}

/// Arguments of the play command.
#[derive(Clone, Debug)]
pub struct PlayArgs {
    /// Path to the WAV file to play.
    pub input: Option<String>,
}

/// Arguments of the monitor command.
#[derive(Clone, Debug)]
pub struct MonitorArgs {
    /// Buffer length for the passthrough queue; more means more latency.
    pub buffer_size: Option<usize>,
}

/// The passthrough buffer length to use: what was asked for, or the
/// default.
pub fn effective_buffer_size(requested: Option<usize>) -> (n: usize)
    ensures
        requested matches Some(v) ==> n == v,
        requested is None ==> n == 1024,
{
    match requested {
        Some(v) => v,
        None => 1024,
    }
}

/// The bytes of the WAV file extension.
pub open spec fn wav_ext() -> Seq<u8> {
    seq![46u8, 119u8, 97u8, 118u8]
}

/// A name with every occurrence of the WAV extension removed, scanning
/// left to right.
pub open spec fn strip_wav(s: Seq<u8>) -> Seq<u8>
    decreases s.len(),
{
    if s.len() < 4 {
        s
    } else if s.take(4) == wav_ext() {
        strip_wav(s.skip(4))
    } else {
        seq![s[0]] + strip_wav(s.skip(1))
    }
}

/// Shapes the requested output name into a WAV file name: any embedded
/// WAV extensions are removed and a single one is appended.
pub fn wav_output_name(name: &Vec<u8>) -> (out: Vec<u8>)
    ensures
        out@ == strip_wav(name@) + wav_ext(),
{
    let mut out: Vec<u8> = Vec::new();
    let mut i: usize = 0;
    proof {
        assert(name@.skip(0) =~= name@);
        assert(out@ + strip_wav(name@) =~= strip_wav(name@));
    }
    while i < name.len()
        invariant
            i <= name@.len(),
            out@ + strip_wav(name@.skip(i as int)) == strip_wav(name@),
        decreases name@.len() - i,
    {
        let ghost rest = name@.skip(i as int);
        if name.len() - i >= 4 && name[i] == 46 && name[i + 1] == 119 && name[i + 2] == 97
            && name[i + 3] == 118 {
            proof {
                assert(rest.take(4) =~= wav_ext());
                assert(rest.skip(4) =~= name@.skip(i + 4));
            }
            i = i + 4;
        } else {
            proof {
                if i + 4 <= name@.len() {
                    assert(rest.take(4) != wav_ext()) by {
                        if rest.take(4) == wav_ext() {
                            assert(rest.take(4)[0] == name@[i as int]);
                            assert(rest.take(4)[1] == name@[i + 1]);
                            assert(rest.take(4)[2] == name@[i + 2]);
                            assert(rest.take(4)[3] == name@[i + 3]);
                        }
                    }
                    assert(strip_wav(rest) == seq![rest[0]] + strip_wav(rest.skip(1)));
                } else {
                    assert(strip_wav(rest) == rest);
                    assert(rest.skip(1).len() < 4);
                    assert(strip_wav(rest) =~= seq![rest[0]] + strip_wav(rest.skip(1)));
                }
                assert(rest.skip(1) =~= name@.skip(i + 1));
                assert((out@ + seq![name@[i as int]]) + strip_wav(name@.skip(i + 1)) =~= out@ + (
                seq![name@[i as int]] + strip_wav(name@.skip(i + 1))));
            }
            out.push(name[i]);
            i = i + 1;
        }
    }
    proof {
        assert(name@.skip(name@.len() as int) =~= Seq::<u8>::empty());
        assert(out@ + Seq::<u8>::empty() =~= out@);
    }
    out.push(46);
    out.push(119);
    out.push(97);
    out.push(118);
    proof {
        assert(out@ =~= strip_wav(name@) + wav_ext());
    }
    out
}

} // verus!
