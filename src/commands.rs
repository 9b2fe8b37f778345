use vstd::prelude::*;

use crate::model::{service_name, Channel, ChannelID, Service, VideoRecord};
use crate::status::{step, StatusEvent, VideoStatus};
use crate::queue::{EnqueueError, WorkItem, WorkQueue};

verus! {

/// The sync jobs for a list of channels, one per channel, in order.
pub open spec fn update_jobs(channels: Seq<Channel>) -> Seq<WorkItem> {
    channels.map_values(|c: Channel| WorkItem::UpdateCheck { channel_id: c.id })
}

/// Queues a sync of every channel, in order, then stops the queue so that the
/// caller can wait for the syncs to finish. Stops at the first refused
/// enqueue and returns its error.
pub fn update(work: &mut WorkQueue, channels: &Vec<Channel>) -> (r: Result<(), EnqueueError>)
    requires
        old(work).wf(),
    ensures
        final(work).wf(),
        !final(work).accepting(),
        old(work).accepting() && old(work).log().len() + channels@.len() <= u64::MAX ==> r is Ok
            && final(work).log() == old(work).log() + update_jobs(channels@),
        !old(work).accepting() && channels@.len() > 0 ==> r == Err::<(), EnqueueError>(EnqueueError::Stopped)
            && final(work).log() == old(work).log(),
        old(work).accepting() && old(work).log().len() + channels@.len() > u64::MAX ==> r == Err::<
            (),
            EnqueueError,
        >(EnqueueError::Exhausted),
        r is Err ==> exists|k: int|
            0 <= k <= channels@.len() && final(work).log() == old(work).log() + update_jobs(
                channels@,
            ).take(k),
        final(work).taken() == old(work).taken(),
        final(work).in_flight() == old(work).in_flight(),
        final(work).done() == old(work).done(),
{
    let ghost start = work.log();
    proof {
        work.lemma_wf_bounds();
        assert(update_jobs(channels@).take(0) =~= Seq::<WorkItem>::empty());
        assert(start + Seq::<WorkItem>::empty() =~= start);
    }
    let mut i: usize = 0;
    while i < channels.len()
        invariant
            i <= channels@.len(),
            work.wf(),
            work.accepting() == old(work).accepting(),
            work.log() == start + update_jobs(channels@).take(i as int),
            start == old(work).log(),
            work.taken() == old(work).taken(),
            work.in_flight() == old(work).in_flight(),
            work.done() == old(work).done(),
            old(work).accepting() ==> work.log().len() == start.len() + i,
            !old(work).accepting() ==> i == 0,
            old(work).accepting() ==> start.len() + i <= u64::MAX,
        decreases channels@.len() - i,
    {
        let job = WorkItem::UpdateCheck { channel_id: channels[i].id };
        proof {
            work.lemma_wf_bounds();
        }
        match work.enqueue(job) {
            Ok(_) => {},
            Err(e) => {
                work.stop();
                return Err(e);
            },
        }
        proof {
            assert(update_jobs(channels@).take(i + 1) =~= update_jobs(channels@).take(
                i as int,
            ).push(job));
        }
        i = i + 1;
    }
    work.stop();
    proof {
        assert(update_jobs(channels@).take(channels@.len() as int) =~= update_jobs(channels@));
    }
    Ok(())
}

/// Asks for a download of `video`: marks it `Queued`, then puts a download
/// job for it on the queue. The mark stands even when the queue refuses the
/// job, so that a caller who stored the mark first stays in step with it.
pub fn queue_download(video: &mut VideoRecord, work: &mut WorkQueue) -> (r: Result<u64, EnqueueError>)
    requires
        old(work).wf(),
    ensures
        final(work).wf(),
        r == (if !old(work).accepting() {
            Err(EnqueueError::Stopped)
        } else if old(work).log().len() >= u64::MAX {
            Err(EnqueueError::Exhausted)
        } else {
            Ok(old(work).log().len() as u64)
        }),
        r is Ok ==> final(work).log() == old(work).log().push(
            WorkItem::Download { video_id: old(video).id },
        ),
        r is Err ==> final(work).log() == old(work).log(),
        final(video).status == step(old(video).status, StatusEvent::Enqueue),
        final(video).status == VideoStatus::Queued,
        final(video).id == old(video).id,
        final(video).chanid == old(video).chanid,
        final(video).info == old(video).info,
        final(work).taken() == old(work).taken(),
        final(work).in_flight() == old(work).in_flight(),
        final(work).done() == old(work).done(),
        final(work).accepting() == old(work).accepting(),
{
    video.apply(StatusEvent::Enqueue);
    work.enqueue(WorkItem::Download { video_id: video.id })
}

/// Why a channel cannot be added.
#[derive(Clone, Debug, PartialEq, Eq)]
pub enum AddError {
    /// The platform name names no platform.
    UnknownService(String),
    /// The platform is known but no fetcher exists for it.
    Unsupported(Service),
}

/// Resolves the channel `name` on the platform named `service_str`, for the
/// platforms that have a fetcher; every other platform is an error for the
/// caller, never silently ignored.
pub fn add(name: &str, service_str: &str) -> (r: Result<ChannelID, AddError>)
    ensures
        service_str@ == service_name(Service::Youtube) ==> (r matches Ok(ChannelID::Youtube(id))
            && id@ == name@),
        service_str@ == service_name(Service::Vimeo) ==> r == Err::<ChannelID, AddError>(
            AddError::Unsupported(Service::Vimeo),
        ),
        service_str@ != service_name(Service::Youtube) && service_str@ != service_name(
            Service::Vimeo,
        ) ==> (r matches Err(AddError::UnknownService(s)) && s@ == service_str@),
{
    proof {
        reveal_strlit("youtube");
        reveal_strlit("vimeo");
        assert(service_name(Service::Youtube).len() != service_name(Service::Vimeo).len());
    }
    let service = match Service::from_str(service_str) {
        Ok(s) => s,
        Err(e) => {
            return Err(AddError::UnknownService(e.name));
        },
    };
    match service {
        Service::Youtube => Ok(service.get_channel_id(name)),
        Service::Vimeo => Err(AddError::Unsupported(Service::Vimeo)),
    }
}

} // verus!
